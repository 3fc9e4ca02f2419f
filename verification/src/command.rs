//! The one-line text commands the websocket layer sends to the Bluetooth
//! manager (`connect ADDRESS`, `send ADDRESS MESSAGE`), how the manager reads
//! them and what it does with them, and the `ADDRESS MESSAGE` lines that
//! come back from devices.
use vstd::prelude::*;

use crate::device::{ConnectedDevices, DeviceAddress};
use crate::text::{
    chars_of, find_word, has_prefix, has_suffix, next_word, no_white, occurs_in, remove_all,
    remove_every, starts_with, string_of, two_words,
};
use crate::text::{
    law_remove_prefix_occurrence, law_two_words, law_word_then_text, lemma_occurs_across_space,
};

verus! {

/// `connect ` (with its space), the head of a connection command.
pub open spec fn connect_head() -> Seq<char> {
    seq!['c', 'o', 'n', 'n', 'e', 'c', 't', ' ']
}

/// `send ` (with its space), the head of a send command.
pub open spec fn send_head() -> Seq<char> {
    seq!['s', 'e', 'n', 'd', ' ']
}

fn connect_head_chars() -> (v: Vec<char>)
    ensures
        v@ == connect_head(),
{
    vec!['c', 'o', 'n', 'n', 'e', 'c', 't', ' ']
}

fn send_head_chars() -> (v: Vec<char>)
    ensures
        v@ == send_head(),
{
    vec!['s', 'e', 'n', 'd', ' ']
}

/// The command asking the manager to connect `address`: `connect ADDRESS`.
pub fn connect_command(address: &DeviceAddress) -> (cmd: String)
    ensures
        cmd@ == connect_head() + address@,
{
    proof {
        reveal_strlit("connect ");
    }
    let mut cmd = "connect ".to_string();
    cmd.append(address.text());
    cmd
}

/// The command asking the manager to send `message` to `address`:
/// `send ADDRESS MESSAGE`.
pub fn send_command(address: &DeviceAddress, message: &str) -> (cmd: String)
    ensures
        cmd@ == send_head() + address@ + seq![' '] + message@,
{
    proof {
        reveal_strlit("send ");
        reveal_strlit(" ");
    }
    let mut cmd = "send ".to_string();
    cmd.append(address.text());
    cmd.append(" ");
    cmd.append(message);
    cmd
}

/// A command as the manager reads it.
pub enum ManagerCommand {
    Connect(DeviceAddress),
    Send(DeviceAddress, String),
    Unrecognized,
}

/// The model of a command: texts in place of strings.
pub enum CommandModel {
    Connect(Seq<char>),
    Send(Seq<char>, Seq<char>),
    Unrecognized,
}

impl View for ManagerCommand {
    type V = CommandModel;

    open spec fn view(&self) -> CommandModel {
        match self {
            ManagerCommand::Connect(a) => CommandModel::Connect(a@),
            ManagerCommand::Send(a, m) => CommandModel::Send(a@, m@),
            ManagerCommand::Unrecognized => CommandModel::Unrecognized,
        }
    }
}

/// A line the manager can read: one that is not a send command, or a send
/// command whose text, once every `send ` is removed, has two words.
pub open spec fn readable(line: Seq<char>) -> bool {
    !has_prefix(line, connect_head()) && has_prefix(line, send_head()) ==> two_words(
        remove_all(line, send_head()),
    ) is Some
}

/// What the manager reads in `line`.  A line starting with `connect ` names,
/// once every `connect ` is removed from it, the device to connect.  A line
/// starting with `send ` has every `send ` removed; its first word is the
/// address and its second the message.  Any other line is not a command.
pub open spec fn command_of(line: Seq<char>) -> CommandModel {
    if has_prefix(line, connect_head()) {
        CommandModel::Connect(remove_all(line, connect_head()))
    } else if has_prefix(line, send_head()) {
        match two_words(remove_all(line, send_head())) {
            Some((address, message)) => CommandModel::Send(address, message),
            None => CommandModel::Unrecognized,
        }
    } else {
        CommandModel::Unrecognized
    }
}

/// The first two words of `v`, as strings.
fn first_two_words(v: &Vec<char>) -> (r: Option<(String, String)>)
    ensures
        match r {
            Some((a, b)) => two_words(v@) == Some((a@, b@)),
            None => two_words(v@) is None,
        },
{
    assert(v@.skip(0) =~= v@);
    match find_word(v, 0) {
        None => None,
        Some((b1, e1)) => match find_word(v, e1) {
            None => None,
            Some((b2, e2)) => Some((string_of(v, b1, e1), string_of(v, b2, e2))),
        },
    }
}

/// Reads a command the manager receives.
pub fn parse_command(line: &str) -> (c: ManagerCommand)
    requires
        readable(line@),
    ensures
        c@ == command_of(line@),
{
    match try_parse_command(line) {
        Some(c) => c,
        None => ManagerCommand::Unrecognized,
    }
}

/// Reads a command the manager receives, or gives `None` for a send command
/// that lacks its address or its message.
pub fn try_parse_command(line: &str) -> (c: Option<ManagerCommand>)
    ensures
        c is Some == readable(line@),
        c matches Some(c) ==> c@ == command_of(line@),
{
    let v = chars_of(line);
    let connect = connect_head_chars();
    if starts_with(&v, &connect) {
        let rest = remove_every(&v, &connect);
        assert(rest@.subrange(0, rest@.len() as int) =~= rest@);
        return Some(ManagerCommand::Connect(DeviceAddress(string_of(&rest, 0, rest.len()))));
    }
    let send = send_head_chars();
    if starts_with(&v, &send) {
        let rest = remove_every(&v, &send);
        return match first_two_words(&rest) {
            Some((address, message)) => Some(ManagerCommand::Send(DeviceAddress(address), message)),
            None => None,
        };
    }
    Some(ManagerCommand::Unrecognized)
}

/// What the manager does with a command line.
pub enum ManagerAction {
    /// Connect the device at this address.
    ConnectDevice(DeviceAddress),
    /// Hand the message to the connected device at this address.
    Deliver(DeviceAddress, String),
    /// Nothing.
    Skip,
}

/// The model of an action: texts in place of strings.
pub enum ActionModel {
    ConnectDevice(Seq<char>),
    Deliver(Seq<char>, Seq<char>),
    Skip,
}

impl View for ManagerAction {
    type V = ActionModel;

    open spec fn view(&self) -> ActionModel {
        match self {
            ManagerAction::ConnectDevice(a) => ActionModel::ConnectDevice(a@),
            ManagerAction::Deliver(a, m) => ActionModel::Deliver(a@, m@),
            ManagerAction::Skip => ActionModel::Skip,
        }
    }
}

/// The manager's decision on a command, given the addresses it has
/// connected: a device already connected is not connected again, and a
/// message for a device that is not connected is dropped.
pub open spec fn action_of(connected: Set<Seq<char>>, command: CommandModel) -> ActionModel {
    match command {
        CommandModel::Connect(a) => if connected.contains(a) {
            ActionModel::Skip
        } else {
            ActionModel::ConnectDevice(a)
        },
        CommandModel::Send(a, m) => if connected.contains(a) {
            ActionModel::Deliver(a, m)
        } else {
            ActionModel::Skip
        },
        CommandModel::Unrecognized => ActionModel::Skip,
    }
}

/// Decides what the manager does with `line`.
pub fn route_command<T>(connected: &ConnectedDevices<T>, line: &str) -> (a: ManagerAction)
    requires
        readable(line@),
    ensures
        a@ == action_of(connected.map().dom(), command_of(line@)),
{
    match parse_command(line) {
        ManagerCommand::Connect(address) => {
            if connected.contains_key(&address) {
                ManagerAction::Skip
            } else {
                ManagerAction::ConnectDevice(address)
            }
        },
        ManagerCommand::Send(address, message) => {
            if connected.contains_key(&address) {
                ManagerAction::Deliver(address, message)
            } else {
                ManagerAction::Skip
            }
        },
        ManagerCommand::Unrecognized => ManagerAction::Skip,
    }
}

/// Reads a line coming back from a device, `ADDRESS MESSAGE`: its first
/// word is the address, its second the message.
pub fn parse_device_line(line: &str) -> (r: (DeviceAddress, String))
    requires
        two_words(line@) is Some,
    ensures
        two_words(line@) == Some((r.0@, r.1@)),
{
    let v = chars_of(line);
    match first_two_words(&v) {
        Some((address, message)) => (DeviceAddress(address), message),
        None => (DeviceAddress(String::new()), String::new()),
    }
}

/// Reads a line coming back from a device, or gives `None` when it has
/// fewer than two words.
pub fn try_parse_device_line(line: &str) -> (r: Option<(DeviceAddress, String)>)
    ensures
        r is Some == two_words(line@) is Some,
        r matches Some((a, m)) ==> two_words(line@) == Some((a@, m@)),
{
    let v = chars_of(line);
    match first_two_words(&v) {
        Some((address, message)) => Some((DeviceAddress(address), message)),
        None => None,
    }
}

// ---------------------------------------------------------------------------
// Laws.
// ---------------------------------------------------------------------------

/// The manager reads a connection command as a request to connect the very
/// address it was made for, when that address does not itself hold
/// `connect `.
pub proof fn law_connect_command_read_back(address: Seq<char>)
    requires
        !occurs_in(address, connect_head()),
    ensures
        readable(connect_head() + address),
        command_of(connect_head() + address) == CommandModel::Connect(address),
{
    let line = connect_head() + address;
    assert(line.take(8) =~= connect_head());
    law_remove_prefix_occurrence(connect_head(), address);
}

/// `send` without its space: a send command whose address ends with it
/// would hide a second `send ` across the separating space.
pub open spec fn send_word() -> Seq<char> {
    seq!['s', 'e', 'n', 'd']
}

/// The manager reads a send command as a request to send the first word of
/// its message to the very address it was made for, when the address is a
/// single word that does not end with `send` and the message holds a word
/// and no `send `.  A message of one word is read back whole.
pub proof fn law_send_command_read_back(address: Seq<char>, message: Seq<char>)
    requires
        address.len() > 0,
        no_white(address),
        !has_suffix(address, send_word()),
        next_word(message) is Some,
        !occurs_in(message, send_head()),
    ensures
        readable(send_head() + address + seq![' '] + message),
        command_of(send_head() + address + seq![' '] + message) == CommandModel::Send(
            address,
            next_word(message).unwrap().0,
        ),
        no_white(message) ==> command_of(send_head() + address + seq![' '] + message)
            == CommandModel::Send(address, message),
{
    let body = address + seq![' '] + message;
    let line = send_head() + address + seq![' '] + message;
    assert(line =~= send_head() + body);
    assert(line.take(5) =~= send_head());
    assert(!has_prefix(line, connect_head())) by {
        if has_prefix(line, connect_head()) {
            assert(line.take(8)[0] == connect_head()[0]);
        }
    }
    assert(send_head().drop_last() =~= send_word());
    lemma_occurs_across_space(address, message, send_head());
    law_remove_prefix_occurrence(send_head(), body);
    law_word_then_text(address, message);
}

/// A line `ADDRESS MESSAGE` from a device reads back as that address and
/// that message, when both are single words.
pub proof fn law_device_line_read_back(address: Seq<char>, message: Seq<char>)
    requires
        address.len() > 0,
        message.len() > 0,
        no_white(address),
        no_white(message),
    ensures
        two_words(address + seq![' '] + message) == Some((address, message)),
{
    law_two_words(address, message);
}

/// A connection command reaches the manager as a request to connect the
/// device while it is not connected, and is skipped once it is: a device is
/// never connected twice.
pub proof fn law_connect_once(connected: Set<Seq<char>>, address: Seq<char>)
    requires
        !occurs_in(address, connect_head()),
    ensures
        !connected.contains(address) ==> action_of(connected, command_of(connect_head() + address))
            == ActionModel::ConnectDevice(address),
        action_of(connected.insert(address), command_of(connect_head() + address))
            == ActionModel::Skip,
{
    law_connect_command_read_back(address);
}

/// A send command for a connected device is delivered to it with the first
/// word of its message, under the conditions of
/// `law_send_command_read_back`; for a device not connected it is dropped.
pub proof fn law_send_delivers_to_connected(
    connected: Set<Seq<char>>,
    address: Seq<char>,
    message: Seq<char>,
)
    requires
        address.len() > 0,
        no_white(address),
        !has_suffix(address, send_word()),
        next_word(message) is Some,
        !occurs_in(message, send_head()),
    ensures
        action_of(connected, command_of(send_head() + address + seq![' '] + message)) == (if connected.contains(address) {
            ActionModel::Deliver(address, next_word(message).unwrap().0)
        } else {
            ActionModel::Skip
        }),
{
    law_send_command_read_back(address, message);
}

} // verus!
