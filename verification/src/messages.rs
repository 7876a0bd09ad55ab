//! The messages that are shown to the user: an identifier, by which the text is looked up
//! in the user's language, and the arguments that the text may refer to.

use vstd::prelude::*;
use fluent_bundle::FluentArgs;

verus! {

/// An argument of a message, as a value.
pub enum Argument {
    /// A number below `EXACT_NUMBERS`.
    Number(nat),
    /// A number from `EXACT_NUMBERS` on.
    Large,
    Text(Seq<char>),
}

/// Up to here a message argument holds every whole number exactly: it is kept as a
/// floating-point number with a mantissa of 53 bits.
pub const EXACT_NUMBERS: u64 = 9_007_199_254_740_992;

/// The argument that stands for a number.
pub open spec fn number(value: int) -> Argument {
    if value < EXACT_NUMBERS {
        Argument::Number(value as nat)
    } else {
        Argument::Large
    }
}

/// The arguments of a message that has none.
pub open spec fn no_arguments() -> Map<Seq<char>, Argument> {
    Map::empty()
}

/// The map from names to values that Fluent messages take as arguments.
#[verifier::external_type_specification]
#[verifier::external_body]
pub struct ExFluentArgs<'args>(FluentArgs<'args>);

/// The arguments that a `FluentArgs` holds, by name.
pub uninterp spec fn arguments(args: FluentArgs<'static>) -> Map<Seq<char>, Argument>;

/// `FluentArgs::new`: there are no arguments yet.
#[verifier::external_body]
fn new_arguments() -> (res: FluentArgs<'static>)
    ensures
        arguments(res) == no_arguments(),
{
    FluentArgs::new()
}

/// `FluentArgs::set` with a number: the argument `name` is set to it, an earlier one of
/// that name is replaced, the others stay. The number is kept as a floating-point
/// number, and so exactly only below `EXACT_NUMBERS`; which of the larger numbers it is
/// is left unsaid.
#[verifier::external_body]
fn set_number(args: &mut FluentArgs<'static>, name: &'static str, value: usize)
    ensures
        arguments(*final(args)) == arguments(*old(args)).insert(name@, number(value as int)),
{
    args.set(name, value)
}

/// `FluentArgs::set` with a text: the argument `name` is set to it, an earlier one of
/// that name is replaced, the others stay.
#[verifier::external_body]
fn set_text(args: &mut FluentArgs<'static>, name: &'static str, value: String)
    ensures
        arguments(*final(args)) == arguments(*old(args)).insert(name@, Argument::Text(value@)),
{
    args.set(name, value)
}

/// A message to the user.
#[derive(Debug)]
pub struct Message {
    pub id: &'static str,
    pub args: Option<FluentArgs<'static>>,
}

/// A message as a value.
#[verifier::ext_equal]
pub struct MessageView {
    pub id: Seq<char>,
    pub args: Option<Map<Seq<char>, Argument>>,
}

impl View for Message {
    type V = MessageView;

    open spec fn view(&self) -> MessageView {
        MessageView {
            id: self.id@,
            args: match self.args {
                Some(args) => Some(arguments(args)),
                None => None,
            },
        }
    }
}

/// The value of an optional message.
pub open spec fn optional_message(message: Option<Message>) -> Option<MessageView> {
    match message {
        Some(message) => Some(message@),
        None => None,
    }
}

/// A message without arguments.
pub open spec fn plain(id: Seq<char>) -> MessageView {
    MessageView { id, args: None }
}

/// The arguments that tell how far a task has come.
pub open spec fn count_arguments(item: int, total: int) -> Map<Seq<char>, Argument> {
    no_arguments().insert("item"@, number(item)).insert(
        "total"@,
        number(total),
    )
}

/// A message that tells how far a task has come.
pub open spec fn counted(id: Seq<char>, item: int, total: int) -> MessageView {
    MessageView { id, args: Some(count_arguments(item, total)) }
}

/// A message that tells how far a task has come, and an error.
pub open spec fn counted_error(
    id: Seq<char>,
    item: int,
    total: int,
    error: Seq<char>,
) -> MessageView {
    MessageView {
        id,
        args: Some(count_arguments(item, total).insert("error"@, Argument::Text(error))),
    }
}

/// A message with one text as its argument.
pub open spec fn about(id: Seq<char>, name: Seq<char>, value: Seq<char>) -> MessageView {
    MessageView {
        id,
        args: Some(no_arguments().insert(name, Argument::Text(value))),
    }
}

/// A message about two assets.
pub open spec fn about_two(id: Seq<char>, a: Seq<char>, b: Seq<char>) -> MessageView {
    MessageView {
        id,
        args: Some(
            no_arguments().insert("item_a"@, Argument::Text(a)).insert(
                "item_b"@,
                Argument::Text(b),
            ),
        ),
    }
}

/// The message of one stage out of three, around the text `status` of that stage.
pub open spec fn staged(item: int, total: int, status: Seq<char>, stage: Seq<char>) -> MessageView {
    MessageView {
        id: "stage"@,
        args: Some(
            count_arguments(item, total).insert("status"@, Argument::Text(status)).insert(
                "stage"@,
                Argument::Text(stage),
            ).insert("max"@, Argument::Text("3"@)),
        ),
    }
}

/// A message without arguments.
pub fn plain_message(id: &'static str) -> (res: Message)
    ensures
        res@ == plain(id@),
{
    Message { id, args: None }
}

fn counts(item: usize, total: usize) -> (res: FluentArgs<'static>)
    ensures
        arguments(res) == count_arguments(item as int, total as int),
{
    let mut args = new_arguments();
    set_number(&mut args, "item", item);
    set_number(&mut args, "total", total);
    args
}

/// A message that tells that a task is at the item `item` of `total`.
pub fn counted_message(id: &'static str, item: usize, total: usize) -> (res: Message)
    ensures
        res@ == counted(id@, item as int, total as int),
{
    Message { id, args: Some(counts(item, total)) }
}

/// A message that tells that a task failed with an error at the item `item` of `total`.
pub fn counted_error_message(
    id: &'static str,
    item: usize,
    total: usize,
    error: String,
) -> (res: Message)
    ensures
        res@ == counted_error(id@, item as int, total as int, error@),
{
    let mut args = counts(item, total);
    set_text(&mut args, "error", error);
    Message { id, args: Some(args) }
}

/// A message with one text as its argument.
pub fn message_about(id: &'static str, name: &'static str, value: String) -> (res: Message)
    ensures
        res@ == about(id@, name@, value@),
{
    let mut args = new_arguments();
    set_text(&mut args, name, value);
    Message { id, args: Some(args) }
}

/// A message about two assets.
pub fn message_about_two(id: &'static str, a: String, b: String) -> (res: Message)
    ensures
        res@ == about_two(id@, a@, b@),
{
    let mut args = new_arguments();
    set_text(&mut args, "item_a", a);
    set_text(&mut args, "item_b", b);
    Message { id, args: Some(args) }
}

/// The message of one stage out of three, around the text of that stage.
pub fn stage_message(item: usize, total: usize, status: String, stage: &str) -> (res: Message)
    ensures
        res@ == staged(item as int, total as int, status@, stage@),
{
    let mut args = counts(item, total);
    set_text(&mut args, "status", status);
    set_text(&mut args, "stage", stage.to_owned());
    set_text(&mut args, "max", "3".to_owned());
    Message { id: "stage", args: Some(args) }
}

/// Each argument of a message is found under its name, and a message has no others. Counts
/// below 2^53 are carried exactly.
pub proof fn messages_carry_their_arguments(
    id: Seq<char>,
    item: int,
    total: int,
    name: Seq<char>,
    one: Seq<char>,
    other: Seq<char>,
)
    ensures
        plain(id) == (MessageView { id, args: None }),
        counted(id, item, total) == (MessageView {
            id,
            args: Some(map!["item"@ => number(item), "total"@ => number(total)]),
        }),
        counted_error(id, item, total, one) == (MessageView {
            id,
            args: Some(
                map![
                    "item"@ => number(item),
                    "total"@ => number(total),
                    "error"@ => Argument::Text(one),
                ],
            ),
        }),
        about(id, name, one) == (MessageView {
            id,
            args: Some(map![name => Argument::Text(one)]),
        }),
        about_two(id, one, other) == (MessageView {
            id,
            args: Some(
                map!["item_a"@ => Argument::Text(one), "item_b"@ => Argument::Text(other)],
            ),
        }),
        staged(item, total, one, other) == (MessageView {
            id: "stage"@,
            args: Some(
                map![
                    "item"@ => number(item),
                    "total"@ => number(total),
                    "status"@ => Argument::Text(one),
                    "stage"@ => Argument::Text(other),
                    "max"@ => Argument::Text(seq!['3']),
                ],
            ),
        }),
        0 <= item < 0x20_0000_0000_0000 ==> number(item) == Argument::Number(item as nat),
{
    reveal_strlit("3");
    assert("3"@ =~= seq!['3']);
}

/// A message is known by its identifier and its arguments.
pub proof fn message_is_its_id_and_arguments(message: Message)
    ensures
        message@.id == message.id@,
        message@.args is None <==> message.args is None,
        message.args matches Some(args) ==> message@.args == Some(arguments(args)),
        optional_message(Some(message)) == Some(message@),
        optional_message(None) is None,
{
}

} // verus!
