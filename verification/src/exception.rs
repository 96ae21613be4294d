//! Exceptions and the reactions to them: what is printed, and where the
//! program gives up.

use crate::decimal::{parse_signed, signed_value, ParseFailure};
use crate::text::{concatenate_strings, same_text, trim, trimmed};
use vstd::prelude::*;

verus! {

/// What went wrong with a value.
#[derive(Clone, Copy, Debug, PartialEq, Eq, Structural)]
pub enum MyException {
    ZeroValueException,
    InvalidValueException,
    OutOfException,
}

/// Why a number could not be had from a file.
#[derive(Debug)]
pub enum MyCustomError {
    /// The file could not be read; the words of the failure.
    Io(String),
    /// What was read is no number.
    Parse(ParseFailure),
    /// Anything else, in words.
    Other(String),
}

/// A failure with its words as plain text.
pub enum MyCustomErrorView {
    Io(Seq<char>),
    Parse(ParseFailure),
    Other(Seq<char>),
}

impl View for MyCustomError {
    type V = MyCustomErrorView;

    open spec fn view(&self) -> MyCustomErrorView {
        match self {
            MyCustomError::Io(message) => MyCustomErrorView::Io(message@),
            MyCustomError::Parse(failure) => MyCustomErrorView::Parse(*failure),
            MyCustomError::Other(message) => MyCustomErrorView::Other(message@),
        }
    }
}

/// The text that a failure is reported with: what kind it is, then its
/// own words.
pub open spec fn error_text(error: MyCustomErrorView) -> Seq<char> {
    match error {
        MyCustomErrorView::Io(message) => "I/O error: "@ + message,
        MyCustomErrorView::Parse(failure) => "Parse error: "@ + failure.text(),
        MyCustomErrorView::Other(message) => "Other error: "@ + message,
    }
}

/// What came of reading a file, as plain text: its content, or the words
/// of the failure.
pub open spec fn read_text(read: Result<String, String>) -> Result<Seq<char>, Seq<char>> {
    match read {
        Ok(content) => Ok(content@),
        Err(message) => Err(message@),
    }
}

/// The number that a file holds: its content without the white space
/// around it, read as a signed 32-bit number in decimal. A file that could
/// not be read and a content that is no such number are failures of their
/// own kinds.
pub open spec fn parsed(read: Result<Seq<char>, Seq<char>>) -> Result<int, MyCustomErrorView> {
    match read {
        Ok(content) => match signed_value(trimmed(content), i32::MIN as int, i32::MAX as int) {
            Ok(v) => Ok(v),
            Err(failure) => Err(MyCustomErrorView::Parse(failure)),
        },
        Err(message) => Err(MyCustomErrorView::Io(message)),
    }
}

/// The reaction to an attempt to have a number from a file: a line that
/// says so, or a stop with the failure.
pub open spec fn completion(read: Result<Seq<char>, Seq<char>>) -> ReactionView {
    match parsed(read) {
        Ok(_) => ReactionView::Print("File read is complete..."@),
        Err(error) => ReactionView::Panic("Error -- "@ + error_text(error)),
    }
}

/// The reaction to an attempt to read a file: its content is printed, or
/// the program stops with the failure.
pub open spec fn shown(read: Result<Seq<char>, Seq<char>>) -> ReactionView {
    match read {
        Ok(content) => ReactionView::Print(content),
        Err(message) => ReactionView::Panic("Error --- : "@ + message),
    }
}

/// What the program does next: print a line and go on, or stop with a
/// message.
#[derive(Debug)]
pub enum Reaction {
    Print(String),
    Panic(String),
}

/// A reaction with its message as plain text.
pub enum ReactionView {
    Print(Seq<char>),
    Panic(Seq<char>),
}

impl View for Reaction {
    type V = ReactionView;

    open spec fn view(&self) -> ReactionView {
        match self {
            Reaction::Print(message) => ReactionView::Print(message@),
            Reaction::Panic(message) => ReactionView::Panic(message@),
        }
    }
}

/// The reactions of a run, each as plain text.
pub open spec fn views(reactions: Seq<Reaction>) -> Seq<ReactionView> {
    reactions.map_values(|r: Reaction| r@)
}

/// The exception that a code stands for.
pub open spec fn exception_of(x: int) -> MyException {
    if x == 0 {
        MyException::ZeroValueException
    } else if x == 1 {
        MyException::InvalidValueException
    } else {
        MyException::OutOfException
    }
}

/// The reaction to an exception: the first two are reported, the third
/// stops the program.
pub open spec fn reaction_to(error: MyException) -> ReactionView {
    match error {
        MyException::ZeroValueException => ReactionView::Print("Value is not zero!"@),
        MyException::InvalidValueException => ReactionView::Print("Invalid value!"@),
        MyException::OutOfException => ReactionView::Panic("Out of value!"@),
    }
}

/// The reaction to a vegetable on the board: a tomato stops the program,
/// everything else is chopped.
pub open spec fn chopped(vegetable: Seq<char>) -> ReactionView {
    if vegetable == "carrot"@ {
        ReactionView::Print("Chopping a carrot."@)
    } else if vegetable == "celery"@ {
        ReactionView::Print("Chopping a celery."@)
    } else if vegetable == "tomato"@ {
        ReactionView::Panic("Don't know how to handle a tomato!"@)
    } else {
        ReactionView::Print("Chopping some unknown vegetable."@)
    }
}

/// What is left of a run of reactions when the program stops at the first
/// one that is a panic: that one is the last.
pub open spec fn until_panic(reactions: Seq<ReactionView>) -> Seq<ReactionView>
    decreases reactions.len(),
{
    if reactions.len() == 0 {
        reactions
    } else if reactions[0] is Panic {
        seq![reactions[0]]
    } else {
        seq![reactions[0]] + until_panic(reactions.drop_first())
    }
}

/// The codes that `errors` tries, in order.
pub open spec fn error_codes() -> Seq<int> {
    seq![0, 1, 2]
}

/// The vegetables that `panic_select` chops, in order.
pub open spec fn vegetables() -> Seq<Seq<char>> {
    seq!["carrot"@, "celery"@, "tomato"@, "banana"@]
}

/// The reaction to each code that `errors` tries, whether reached or not.
pub open spec fn error_reactions() -> Seq<ReactionView> {
    error_codes().map_values(|x: int| reaction_to(exception_of(x)))
}

/// The reaction to each vegetable that `panic_select` has, whether reached
/// or not.
pub open spec fn vegetable_reactions() -> Seq<ReactionView> {
    vegetables().map_values(|v: Seq<char>| chopped(v))
}

/// A run that has followed `all` up to position `i` follows it one
/// position further once the reaction at `i` is added.
proof fn lemma_run_extends(
    before: Seq<Reaction>,
    reaction: Reaction,
    all: Seq<ReactionView>,
    i: int,
)
    requires
        0 <= i < all.len(),
        views(before) == all.take(i),
        reaction@ == all[i],
    ensures
        views(before.push(reaction)) == all.take(i + 1),
{
    let after = before.push(reaction);
    assert(views(before).len() == i);
    assert forall|j: int| 0 <= j < i + 1 implies views(after)[j] == all.take(i + 1)[j] by {
        if j < i {
            assert(views(before)[j] == all.take(i)[j]);
        }
    }
    assert(views(after) =~= all.take(i + 1));
}

/// With no panic before position `k`, a run stops at `k` if a panic stands
/// there, and goes to its end if `k` is the end.
pub proof fn lemma_until_panic_stops(reactions: Seq<ReactionView>, k: int)
    requires
        0 <= k <= reactions.len(),
        forall|j: int| 0 <= j < k ==> !(reactions[j] is Panic),
        k < reactions.len() ==> reactions[k] is Panic,
    ensures
        until_panic(reactions) == if k < reactions.len() {
            reactions.take(k + 1)
        } else {
            reactions
        },
    decreases k,
{
    if reactions.len() == 0 {
    } else if k == 0 {
        assert(reactions.take(1) =~= seq![reactions[0]]);
    } else {
        let rest = reactions.drop_first();
        assert forall|j: int| 0 <= j < k - 1 implies !(rest[j] is Panic) by {
            assert(rest[j] == reactions[j + 1]);
        }
        lemma_until_panic_stops(rest, k - 1);
        if k < reactions.len() {
            assert(seq![reactions[0]] + rest.take(k) =~= reactions.take(k + 1));
        } else {
            assert(seq![reactions[0]] + rest =~= reactions);
        }
    }
}

impl Reaction {
    /// Whether this reaction stops the program.
    pub fn is_panic(&self) -> (r: bool)
        ensures
            r == (self@ is Panic),
    {
        match self {
            Reaction::Print(_) => false,
            Reaction::Panic(_) => true,
        }
    }

    /// The message that is printed or that the program stops with.
    pub fn message(&self) -> (r: &str)
        ensures
            self@ == ReactionView::Print(r@) || self@ == ReactionView::Panic(r@),
    {
        match self {
            Reaction::Print(message) => message.as_str(),
            Reaction::Panic(message) => message.as_str(),
        }
    }
}

impl MyCustomError {
    /// Writes the failure for a reader.
    pub fn message(&self) -> (r: String)
        ensures
            r@ == error_text(self@),
    {
        match self {
            MyCustomError::Io(message) => concatenate_strings("I/O error: ", message.as_str()),
            MyCustomError::Parse(failure) => concatenate_strings(
                "Parse error: ",
                failure.message().as_str(),
            ),
            MyCustomError::Other(message) => concatenate_strings(
                "Other error: ",
                message.as_str(),
            ),
        }
    }
}

/// Has the number from what came of reading a file.
pub fn read_and_parse(read: Result<String, String>) -> (r: Result<i32, MyCustomError>)
    ensures
        match parsed(read_text(read)) {
            Ok(v) => r matches Ok(n) && n == v,
            Err(error) => r matches Err(e) && e@ == error,
        },
{
    match read {
        Ok(content) => match parse_signed(trim(content.as_str()), -0x8000_0000, 0x7fff_ffff) {
            Ok(v) => Ok(v as i32),
            Err(failure) => Err(MyCustomError::Parse(failure)),
        },
        Err(message) => Err(MyCustomError::Io(message)),
    }
}

/// Decides the reaction to what came of reading a file that should hold a
/// number.
pub fn custom_error(read: Result<String, String>) -> (r: Reaction)
    ensures
        r@ == completion(read_text(read)),
{
    match read_and_parse(read) {
        Ok(_) => Reaction::Print("File read is complete...".to_owned()),
        Err(error) => Reaction::Panic(
            concatenate_strings("Error -- ", error.message().as_str()),
        ),
    }
}

/// Decides the reaction to what came of reading a file that is to be
/// shown.
pub fn error_handling(read: Result<String, String>) -> (r: Reaction)
    ensures
        r@ == shown(read_text(read)),
{
    match read {
        Ok(content) => Reaction::Print(content),
        Err(message) => Reaction::Panic(concatenate_strings("Error --- : ", message.as_str())),
    }
}

/// The path of the file `file_name` among the sources below the directory
/// `current_dir`.
pub fn source_path(current_dir: &str, file_name: &str) -> (r: String)
    ensures
        r@ == current_dir@ + "/src/"@ + file_name@,
{
    let mut path = current_dir.to_owned();
    path.append("/src/");
    path.append(file_name);
    path
}

/// Decides the reaction to an exception.
pub fn handle_error(error: MyException) -> (r: Reaction)
    ensures
        r@ == reaction_to(error),
{
    match error {
        MyException::ZeroValueException => Reaction::Print("Value is not zero!".to_owned()),
        MyException::InvalidValueException => Reaction::Print("Invalid value!".to_owned()),
        MyException::OutOfException => Reaction::Panic("Out of value!".to_owned()),
    }
}

/// Decides the reaction to the exception that the code `x` stands for.
pub fn test_error(x: i32) -> (r: Reaction)
    ensures
        r@ == reaction_to(exception_of(x as int)),
{
    match x {
        0 => handle_error(MyException::ZeroValueException),
        1 => handle_error(MyException::InvalidValueException),
        _ => handle_error(MyException::OutOfException),
    }
}

/// Tries the codes 0, 1 and 2 in turn and gives the reactions up to the one
/// that stops the program.
pub fn errors() -> (r: Vec<Reaction>)
    ensures
        views(r@) == until_panic(error_reactions()),
{
    let codes: Vec<i32> = vec![0, 1, 2];
    let ghost all = error_reactions();
    let mut done: Vec<Reaction> = Vec::new();
    let mut i: usize = 0;
    assert(views(done@) =~= all.take(0));
    while i < codes.len()
        invariant
            i <= codes.len(),
            all == error_reactions(),
            codes@.len() == all.len(),
            forall|j: int| 0 <= j < codes.len() ==> all[j] == reaction_to(exception_of(codes[j] as int)),
            views(done@) == all.take(i as int),
            forall|j: int| 0 <= j < i ==> !(all[j] is Panic),
        decreases codes.len() - i,
    {
        let reaction = test_error(codes[i]);
        let stop = reaction.is_panic();
        proof {
            lemma_run_extends(done@, reaction, all, i as int);
        }
        done.push(reaction);
        if stop {
            proof {
                lemma_until_panic_stops(all, i as int);
            }
            return done;
        }
        i += 1;
    }
    proof {
        lemma_until_panic_stops(all, i as int);
        assert(all.take(i as int) =~= all);
    }
    done
}

/// Decides the reaction to a vegetable on the board.
pub fn chop(vegetable: &str) -> (r: Reaction)
    ensures
        r@ == chopped(vegetable@),
{
    if same_text(vegetable, "carrot") {
        Reaction::Print("Chopping a carrot.".to_owned())
    } else if same_text(vegetable, "celery") {
        Reaction::Print("Chopping a celery.".to_owned())
    } else if same_text(vegetable, "tomato") {
        Reaction::Panic("Don't know how to handle a tomato!".to_owned())
    } else {
        Reaction::Print("Chopping some unknown vegetable.".to_owned())
    }
}

/// Chops a carrot, a celery, a tomato and a banana in turn and gives the
/// reactions up to the one that stops the program.
pub fn panic_select() -> (r: Vec<Reaction>)
    ensures
        views(r@) == until_panic(vegetable_reactions()),
{
    let veggies: Vec<&str> = vec!["carrot", "celery", "tomato", "banana"];
    let ghost all = vegetable_reactions();
    let mut done: Vec<Reaction> = Vec::new();
    let mut i: usize = 0;
    assert(views(done@) =~= all.take(0));
    while i < veggies.len()
        invariant
            i <= veggies.len(),
            all == vegetable_reactions(),
            veggies@.len() == all.len(),
            forall|j: int| 0 <= j < veggies.len() ==> all[j] == chopped(veggies[j]@),
            views(done@) == all.take(i as int),
            forall|j: int| 0 <= j < i ==> !(all[j] is Panic),
        decreases veggies.len() - i,
    {
        let reaction = chop(veggies[i]);
        let stop = reaction.is_panic();
        proof {
            lemma_run_extends(done@, reaction, all, i as int);
        }
        done.push(reaction);
        if stop {
            proof {
                lemma_until_panic_stops(all, i as int);
            }
            return done;
        }
        i += 1;
    }
    proof {
        lemma_until_panic_stops(all, i as int);
        assert(all.take(i as int) =~= all);
    }
    done
}

} // verus!
