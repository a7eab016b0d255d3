//! The command line's own rules: reading the arguments into a command,
//! cleaning text read from files, checking display names and the typed
//! confirmation of the short authentication string, and finding a contact
//! by name.
use vstd::prelude::*;
use vstd::utf8::{decode_utf8, encode_utf8, valid_utf8};

use crate::crypto::inner::{has_control_char, is_control, text_from_utf8};
use crate::secret_storage::header::Passphrase;
use crate::secret_storage::state::{display_name_ok, ContactId};

verus! {

/// Safe error of the command line.
#[derive(Clone, Copy, Debug, PartialEq, Eq, Structural)]
pub enum CliError {
    Usage,
    Io,
    UnsafeFile,
    InvalidText,
    InvalidNumber,
    Profile,
    Contact,
    Crypto,
    Node,
    Lan,
    Bridge,
    Timeout,
    SasRejected,
    UnknownContact,
    AmbiguousContact,
    QueueDeferred,
}

/// The description of a `CliError`.
pub open spec fn cli_error_text(error: CliError) -> Seq<char> {
    match error {
        CliError::Usage => "invalid command; run lantern-cli help"@,
        CliError::Io => "file operation failed"@,
        CliError::UnsafeFile => "file or directory permissions are unsafe"@,
        CliError::InvalidText => "text input is invalid or too large"@,
        CliError::InvalidNumber => "numeric argument is invalid"@,
        CliError::Profile => "secret profile operation failed"@,
        CliError::Contact => "contact exchange data is invalid"@,
        CliError::Crypto => "cryptographic operation failed"@,
        CliError::Node => "node operation failed"@,
        CliError::Lan => "LAN operation failed"@,
        CliError::Bridge => "queue and cryptographic state could not be joined"@,
        CliError::Timeout => "timed out waiting for the other contact file"@,
        CliError::SasRejected => "contact verification was cancelled"@,
        CliError::UnknownContact => "contact name was not found"@,
        CliError::AmbiguousContact => "contact name is not unique"@,
        CliError::QueueDeferred => "message remains pending because the queue is full"@,
    }
}

impl CliError {
    /// Short human-readable description.
    pub fn message(&self) -> (text: &'static str)
        ensures
            text@ == cli_error_text(*self),
    {
        match self {
            CliError::Usage => "invalid command; run lantern-cli help",
            CliError::Io => "file operation failed",
            CliError::UnsafeFile => "file or directory permissions are unsafe",
            CliError::InvalidText => "text input is invalid or too large",
            CliError::InvalidNumber => "numeric argument is invalid",
            CliError::Profile => "secret profile operation failed",
            CliError::Contact => "contact exchange data is invalid",
            CliError::Crypto => "cryptographic operation failed",
            CliError::Node => "node operation failed",
            CliError::Lan => "LAN operation failed",
            CliError::Bridge => "queue and cryptographic state could not be joined",
            CliError::Timeout => "timed out waiting for the other contact file",
            CliError::SasRejected => "contact verification was cancelled",
            CliError::UnknownContact => "contact name was not found",
            CliError::AmbiguousContact => "contact name is not unique",
            CliError::QueueDeferred => "message remains pending because the queue is full",
        }
    }
}

/// A parsed command. Paths are the raw bytes of their arguments.
pub enum Command {
    Help,
    ProfileInit { profile: Vec<u8>, passphrase: Vec<u8> },
    NodeInit { node: Vec<u8> },
    ContactInvite {
        profile: Vec<u8>,
        passphrase: Vec<u8>,
        name: String,
        invitation_out: Vec<u8>,
        response_in: Vec<u8>,
        initiator_confirmation_in: Vec<u8>,
        receiver_confirmation_out: Vec<u8>,
    },
    ContactRespond {
        profile: Vec<u8>,
        passphrase: Vec<u8>,
        name: String,
        invitation_in: Vec<u8>,
        response_out: Vec<u8>,
        initiator_confirmation_out: Vec<u8>,
        receiver_confirmation_in: Vec<u8>,
    },
    Contacts { profile: Vec<u8>, passphrase: Vec<u8> },
    Send {
        profile: Vec<u8>,
        passphrase: Vec<u8>,
        node: Vec<u8>,
        contact: String,
        message: Vec<u8>,
        ttl_seconds: u64,
        max_hops: u64,
    },
    Listen { node: Vec<u8>, address: String },
    Connect { node: Vec<u8>, address: String },
    Receive { profile: Vec<u8>, passphrase: Vec<u8>, node: Vec<u8> },
    Inbox { profile: Vec<u8>, passphrase: Vec<u8> },
    Diagnostics { node: Vec<u8> },
}

/// Model of a parsed command: paths as bytes, names and addresses as text.
pub enum CommandView {
    Help,
    ProfileInit { profile: Seq<u8>, passphrase: Seq<u8> },
    NodeInit { node: Seq<u8> },
    ContactInvite {
        profile: Seq<u8>,
        passphrase: Seq<u8>,
        name: Seq<char>,
        invitation_out: Seq<u8>,
        response_in: Seq<u8>,
        initiator_confirmation_in: Seq<u8>,
        receiver_confirmation_out: Seq<u8>,
    },
    ContactRespond {
        profile: Seq<u8>,
        passphrase: Seq<u8>,
        name: Seq<char>,
        invitation_in: Seq<u8>,
        response_out: Seq<u8>,
        initiator_confirmation_out: Seq<u8>,
        receiver_confirmation_in: Seq<u8>,
    },
    Contacts { profile: Seq<u8>, passphrase: Seq<u8> },
    Send {
        profile: Seq<u8>,
        passphrase: Seq<u8>,
        node: Seq<u8>,
        contact: Seq<char>,
        message: Seq<u8>,
        ttl_seconds: u64,
        max_hops: u64,
    },
    Listen { node: Seq<u8>, address: Seq<char> },
    Connect { node: Seq<u8>, address: Seq<char> },
    Receive { profile: Seq<u8>, passphrase: Seq<u8>, node: Seq<u8> },
    Inbox { profile: Seq<u8>, passphrase: Seq<u8> },
    Diagnostics { node: Seq<u8> },
}

impl View for Command {
    type V = CommandView;

    open spec fn view(&self) -> CommandView {
        match self {
            Command::Help => CommandView::Help,
            Command::ProfileInit { profile, passphrase } => CommandView::ProfileInit {
                profile: profile@,
                passphrase: passphrase@,
            },
            Command::NodeInit { node } => CommandView::NodeInit { node: node@ },
            Command::ContactInvite {
                profile,
                passphrase,
                name,
                invitation_out,
                response_in,
                initiator_confirmation_in,
                receiver_confirmation_out,
            } => CommandView::ContactInvite {
                profile: profile@,
                passphrase: passphrase@,
                name: name@,
                invitation_out: invitation_out@,
                response_in: response_in@,
                initiator_confirmation_in: initiator_confirmation_in@,
                receiver_confirmation_out: receiver_confirmation_out@,
            },
            Command::ContactRespond {
                profile,
                passphrase,
                name,
                invitation_in,
                response_out,
                initiator_confirmation_out,
                receiver_confirmation_in,
            } => CommandView::ContactRespond {
                profile: profile@,
                passphrase: passphrase@,
                name: name@,
                invitation_in: invitation_in@,
                response_out: response_out@,
                initiator_confirmation_out: initiator_confirmation_out@,
                receiver_confirmation_in: receiver_confirmation_in@,
            },
            Command::Contacts { profile, passphrase } => CommandView::Contacts {
                profile: profile@,
                passphrase: passphrase@,
            },
            Command::Send { profile, passphrase, node, contact, message, ttl_seconds, max_hops } =>
            CommandView::Send {
                profile: profile@,
                passphrase: passphrase@,
                node: node@,
                contact: contact@,
                message: message@,
                ttl_seconds: *ttl_seconds,
                max_hops: *max_hops,
            },
            Command::Listen { node, address } => CommandView::Listen {
                node: node@,
                address: address@,
            },
            Command::Connect { node, address } => CommandView::Connect {
                node: node@,
                address: address@,
            },
            Command::Receive { profile, passphrase, node } => CommandView::Receive {
                profile: profile@,
                passphrase: passphrase@,
                node: node@,
            },
            Command::Inbox { profile, passphrase } => CommandView::Inbox {
                profile: profile@,
                passphrase: passphrase@,
            },
            Command::Diagnostics { node } => CommandView::Diagnostics { node: node@ },
        }
    }
}

/// The byte views of the arguments.
pub open spec fn argument_views(arguments: Seq<Vec<u8>>) -> Seq<Seq<u8>> {
    arguments.map_values(|a: Vec<u8>| a@)
}

/// What `parse` gives for arguments `args`: the first names the command and
/// must be text, the count must be the command's arity, contact names and
/// addresses must be text (else `Usage`), and the lifetime and hop limit,
/// read in that order, must be text (else `Usage`) and decimal numbers that
/// fit in `u64` (else `InvalidNumber`). Every other argument is a path,
/// taken as it is, in the order the command lists them.
pub open spec fn spec_parse(args: Seq<Seq<u8>>) -> Result<CommandView, CliError> {
    if args.len() == 0 || !valid_utf8(args[0]) {
        Err(CliError::Usage)
    } else {
        let name = decode_utf8(args[0]);
        let v = args.drop_first();
        if arity(name) != v.len() {
            Err(CliError::Usage)
        } else if name == "help"@ {
            Ok(CommandView::Help)
        } else if name == "profile-init"@ {
            Ok(CommandView::ProfileInit { profile: v[0], passphrase: v[1] })
        } else if name == "node-init"@ {
            Ok(CommandView::NodeInit { node: v[0] })
        } else if name == "contact-invite"@ {
            if !valid_utf8(v[2]) {
                Err(CliError::Usage)
            } else {
                Ok(
                    CommandView::ContactInvite {
                        profile: v[0],
                        passphrase: v[1],
                        name: decode_utf8(v[2]),
                        invitation_out: v[3],
                        response_in: v[4],
                        initiator_confirmation_in: v[5],
                        receiver_confirmation_out: v[6],
                    },
                )
            }
        } else if name == "contact-respond"@ {
            if !valid_utf8(v[2]) {
                Err(CliError::Usage)
            } else {
                Ok(
                    CommandView::ContactRespond {
                        profile: v[0],
                        passphrase: v[1],
                        name: decode_utf8(v[2]),
                        invitation_in: v[3],
                        response_out: v[4],
                        initiator_confirmation_out: v[5],
                        receiver_confirmation_in: v[6],
                    },
                )
            }
        } else if name == "contacts"@ {
            Ok(CommandView::Contacts { profile: v[0], passphrase: v[1] })
        } else if name == "send"@ {
            if !valid_utf8(v[3]) || !valid_utf8(v[5]) {
                Err(CliError::Usage)
            } else {
                match decimal_u64(v[5]) {
                    None => Err(CliError::InvalidNumber),
                    Some(ttl) => if !valid_utf8(v[6]) {
                        Err(CliError::Usage)
                    } else {
                        match decimal_u64(v[6]) {
                            None => Err(CliError::InvalidNumber),
                            Some(hops) => Ok(
                                CommandView::Send {
                                    profile: v[0],
                                    passphrase: v[1],
                                    node: v[2],
                                    contact: decode_utf8(v[3]),
                                    message: v[4],
                                    ttl_seconds: ttl,
                                    max_hops: hops,
                                },
                            ),
                        }
                    },
                }
            }
        } else if name == "listen"@ || name == "connect"@ {
            if !valid_utf8(v[1]) {
                Err(CliError::Usage)
            } else if name == "listen"@ {
                Ok(CommandView::Listen { node: v[0], address: decode_utf8(v[1]) })
            } else {
                Ok(CommandView::Connect { node: v[0], address: decode_utf8(v[1]) })
            }
        } else if name == "receive"@ {
            Ok(CommandView::Receive { profile: v[0], passphrase: v[1], node: v[2] })
        } else if name == "inbox"@ {
            Ok(CommandView::Inbox { profile: v[0], passphrase: v[1] })
        } else {
            Ok(CommandView::Diagnostics { node: v[0] })
        }
    }
}

/// The arguments name command `name` as their first argument and hold `n`
/// more after it.
pub open spec fn invoked_as(args: Seq<Seq<u8>>, name: Seq<char>, n: int) -> bool {
    &&& args.len() == n + 1
    &&& valid_utf8(args[0])
    &&& decode_utf8(args[0]) == name
}

/// Every argument lands in the field of its position: after the command
/// name, each command takes its paths, names, addresses and numbers in the
/// order its usage lists them, paths as they are and text decoded; a
/// contact name that is not text is `Usage`, and so is an empty line.
pub proof fn law_parse_positions(args: Seq<Seq<u8>>)
    ensures
        invoked_as(args, "help"@, 0) ==> spec_parse(args) == Ok::<CommandView, CliError>(CommandView::Help),
        invoked_as(args, "profile-init"@, 2) ==> spec_parse(args) == Ok::<CommandView, CliError>(CommandView::ProfileInit { profile: args[1], passphrase: args[2] }),
        invoked_as(args, "node-init"@, 1) ==> spec_parse(args) == Ok::<CommandView, CliError>(CommandView::NodeInit { node: args[1] }),
        invoked_as(args, "contact-invite"@, 7) && valid_utf8(args[3]) ==> spec_parse(args) == Ok::<CommandView, CliError>(CommandView::ContactInvite {
                profile: args[1],
                passphrase: args[2],
                name: decode_utf8(args[3]),
                invitation_out: args[4],
                response_in: args[5],
                initiator_confirmation_in: args[6],
                receiver_confirmation_out: args[7],
            }),
        invoked_as(args, "contact-respond"@, 7) && valid_utf8(args[3]) ==> spec_parse(args) == Ok::<CommandView, CliError>(CommandView::ContactRespond {
                profile: args[1],
                passphrase: args[2],
                name: decode_utf8(args[3]),
                invitation_in: args[4],
                response_out: args[5],
                initiator_confirmation_out: args[6],
                receiver_confirmation_in: args[7],
            }),
        invoked_as(args, "contacts"@, 2) ==> spec_parse(args) == Ok::<CommandView, CliError>(CommandView::Contacts { profile: args[1], passphrase: args[2] }),
        invoked_as(args, "send"@, 7) && valid_utf8(args[4]) && valid_utf8(args[6]) && valid_utf8(args[7]) && decimal_u64(args[6]) is Some && decimal_u64(args[7]) is Some ==> spec_parse(args) == Ok::<CommandView, CliError>(CommandView::Send {
                profile: args[1],
                passphrase: args[2],
                node: args[3],
                contact: decode_utf8(args[4]),
                message: args[5],
                ttl_seconds: decimal_u64(args[6])->0,
                max_hops: decimal_u64(args[7])->0,
            }),
        invoked_as(args, "listen"@, 2) && valid_utf8(args[2]) ==> spec_parse(args) == Ok::<CommandView, CliError>(CommandView::Listen { node: args[1], address: decode_utf8(args[2]) }),
        invoked_as(args, "connect"@, 2) && valid_utf8(args[2]) ==> spec_parse(args) == Ok::<CommandView, CliError>(CommandView::Connect { node: args[1], address: decode_utf8(args[2]) }),
        invoked_as(args, "receive"@, 3) ==> spec_parse(args) == Ok::<CommandView, CliError>(CommandView::Receive { profile: args[1], passphrase: args[2], node: args[3] }),
        invoked_as(args, "inbox"@, 2) ==> spec_parse(args) == Ok::<CommandView, CliError>(CommandView::Inbox { profile: args[1], passphrase: args[2] }),
        invoked_as(args, "diagnostics"@, 1) ==> spec_parse(args) == Ok::<CommandView, CliError>(CommandView::Diagnostics { node: args[1] }),
        invoked_as(args, "contact-invite"@, 7) && !valid_utf8(args[3]) ==> spec_parse(args) == Err::<
            CommandView,
            CliError,
        >(CliError::Usage),
        invoked_as(args, "contact-respond"@, 7) && !valid_utf8(args[3]) ==> spec_parse(args) == Err::<
            CommandView,
            CliError,
        >(CliError::Usage),
        args.len() == 0 ==> spec_parse(args) == Err::<CommandView, CliError>(CliError::Usage),
{
    reveal_strlit("help");
    reveal_strlit("profile-init");
    reveal_strlit("node-init");
    reveal_strlit("contact-invite");
    reveal_strlit("contact-respond");
    reveal_strlit("contacts");
    reveal_strlit("send");
    reveal_strlit("listen");
    reveal_strlit("connect");
    reveal_strlit("receive");
    reveal_strlit("inbox");
    reveal_strlit("diagnostics");
    assert("help"@.len() == 4);
    assert("send"@.len() == 4);
    assert("send"@[0] != "help"@[0]);
    assert("profile-init"@.len() == 12);
    assert("node-init"@.len() == 9);
    assert("contact-invite"@.len() == 14);
    assert("contact-respond"@.len() == 15);
    assert("contacts"@.len() == 8);
    assert("listen"@.len() == 6);
    assert("connect"@.len() == 7);
    assert("receive"@.len() == 7);
    assert("connect"@[0] != "receive"@[0]);
    assert("inbox"@.len() == 5);
    assert("diagnostics"@.len() == 11);
}

/// The value of a run of ASCII digits.
pub open spec fn decimal_value(digits: Seq<u8>) -> int
    decreases digits.len(),
{
    if digits.len() == 0 {
        0
    } else {
        decimal_value(digits.drop_last()) * 10 + (digits.last() - 48)
    }
}

pub open spec fn all_digits(s: Seq<u8>) -> bool {
    forall|i: int| 0 <= i < s.len() ==> 48 <= #[trigger] s[i] <= 57
}

/// What `u64::from_str` accepts: an optional `+` and at least one ASCII
/// digit, with a value that fits in 64 bits.
pub open spec fn decimal_u64(text: Seq<u8>) -> Option<u64> {
    let digits = if text.len() > 0 && text[0] == 43 {
        text.skip(1)
    } else {
        text
    };
    if digits.len() > 0 && all_digits(digits) && decimal_value(digits) <= u64::MAX {
        Some(decimal_value(digits) as u64)
    } else {
        None
    }
}

proof fn lemma_decimal_nonnegative(digits: Seq<u8>)
    requires
        all_digits(digits),
    ensures
        decimal_value(digits) >= 0,
    decreases digits.len(),
{
    if digits.len() > 0 {
        lemma_decimal_nonnegative(digits.drop_last());
    }
}

proof fn lemma_decimal_monotone(digits: Seq<u8>, k: int)
    requires
        all_digits(digits),
        0 <= k <= digits.len(),
    ensures
        decimal_value(digits.take(k)) <= decimal_value(digits),
    decreases digits.len() - k,
{
    if k < digits.len() {
        lemma_decimal_monotone(digits, k + 1);
        assert(digits.take(k + 1).drop_last() =~= digits.take(k));
        lemma_decimal_nonnegative(digits.take(k));
    } else {
        assert(digits.take(k) =~= digits);
    }
}

/// Parses an unsigned decimal number the way `u64::from_str` does.
pub fn parse_u64(text: &[u8]) -> (value: Option<u64>)
    ensures
        value == decimal_u64(text@),
{
    let start: usize = if text.len() > 0 && text[0] == 43 { 1 } else { 0 };
    let ghost digits = text@.skip(start as int);
    proof {
        if start == 0 {
            assert(digits =~= text@);
        }
    }
    if start >= text.len() {
        assert(digits.len() == 0);
        return None;
    }
    let mut value: u64 = 0;
    let mut i: usize = start;
    while i < text.len()
        invariant
            start <= i <= text@.len(),
            digits == text@.skip(start as int),
            digits == (if text@.len() > 0 && text@[0] == 43 {
                text@.skip(1)
            } else {
                text@
            }),
            all_digits(digits.take(i - start)),
            value == decimal_value(digits.take(i - start)),
        decreases text@.len() - i,
    {
        let b = text[i];
        assert(digits[i - start] == b);
        assert(digits.take(i - start + 1).drop_last() =~= digits.take(i - start));
        if b < 48 || b > 57 {
            assert(!all_digits(digits)) by {
                assert(!(48 <= digits[i - start] <= 57));
            }
            return None;
        }
        assert(all_digits(digits.take(i - start + 1)));
        if value > 1844674407370955161u64 || (value == 1844674407370955161u64 && b > 53) {
            assert(!(all_digits(digits) && decimal_value(digits) <= u64::MAX)) by {
                if all_digits(digits) {
                    lemma_decimal_monotone(digits, i - start + 1);
                    assert(decimal_value(digits.take(i - start + 1)) == value * 10 + (b - 48));
                }
            }
            return None;
        }
        value = value * 10 + (b - 48) as u64;
        i = i + 1;
    }
    assert(digits.take(i - start) =~= digits);
    assert(digits.len() > 0);
    Some(value)
}

/// The command named by the first argument with exactly its arguments.
pub open spec fn arity(name: Seq<char>) -> int {
    if name == "help"@ {
        0
    } else if name == "profile-init"@ || name == "contacts"@ || name == "listen"@ || name
        == "connect"@ || name == "inbox"@ {
        2
    } else if name == "node-init"@ || name == "diagnostics"@ {
        1
    } else if name == "contact-invite"@ || name == "contact-respond"@ || name == "send"@ {
        7
    } else if name == "receive"@ {
        3
    } else {
        -1
    }
}

fn text_at(values: &Vec<Vec<u8>>, index: usize) -> (result: Result<String, CliError>)
    requires
        index < values@.len(),
    ensures
        valid_utf8(values@[index as int]@) ==> (result matches Ok(t) && t@ == decode_utf8(
            values@[index as int]@,
        )),
        !valid_utf8(values@[index as int]@) ==> result == Err::<String, CliError>(CliError::Usage),
{
    match text_from_utf8(values[index].as_slice()) {
        Some(t) => Ok(t),
        None => Err(CliError::Usage),
    }
}

fn path_at(values: &Vec<Vec<u8>>, index: usize) -> (path: Vec<u8>)
    requires
        index < values@.len(),
    ensures
        path@ == values@[index as int]@,
{
    values[index].clone()
}

fn number_at(values: &Vec<Vec<u8>>, index: usize) -> (result: Result<u64, CliError>)
    requires
        index < values@.len(),
    ensures
        !valid_utf8(values@[index as int]@) ==> result == Err::<u64, CliError>(CliError::Usage),
        valid_utf8(values@[index as int]@) ==> match decimal_u64(values@[index as int]@) {
            Some(v) => result == Ok::<u64, CliError>(v),
            None => result == Err::<u64, CliError>(CliError::InvalidNumber),
        },
{
    match text_at(values, index) {
        Ok(_) => {},
        Err(e) => {
            return Err(e);
        },
    }
    match parse_u64(values[index].as_slice()) {
        Some(v) => Ok(v),
        None => Err(CliError::InvalidNumber),
    }
}

pub(crate) fn same_text(a: &str, b: &str) -> (same: bool)
    ensures
        same == (a@ == b@),
{
    let r = crate::cbor::slices_equal(a.as_bytes(), b.as_bytes());
    proof {
        vstd::utf8::encode_utf8_decode_utf8(a@);
        vstd::utf8::encode_utf8_decode_utf8(b@);
    }
    r
}

/// Reads the arguments after the program name into a command. The first
/// must name a command and be text; the count must fit it; names, addresses
/// and the contact must be text; the lifetime and hop limit must be numbers.
/// Anything else is `Usage`, except a badly formed number, which is
/// `InvalidNumber`.
pub fn parse(arguments: Vec<Vec<u8>>) -> (result: Result<Command, CliError>)
    ensures
        match spec_parse(argument_views(arguments@)) {
            Ok(c) => result matches Ok(r) && r@ == c,
            Err(e) => result == Err::<Command, CliError>(e),
        },
        invoked_as(argument_views(arguments@), "help"@, 0) ==> (result matches Ok(r) && r@ == CommandView::Help),
        invoked_as(argument_views(arguments@), "profile-init"@, 2) ==> (result matches Ok(r) && r@ == CommandView::ProfileInit { profile: argument_views(arguments@)[1], passphrase: argument_views(arguments@)[2] }),
        invoked_as(argument_views(arguments@), "node-init"@, 1) ==> (result matches Ok(r) && r@ == CommandView::NodeInit { node: argument_views(arguments@)[1] }),
        invoked_as(argument_views(arguments@), "contact-invite"@, 7) && valid_utf8(argument_views(arguments@)[3]) ==> (result matches Ok(r) && r@ == CommandView::ContactInvite {
                profile: argument_views(arguments@)[1],
                passphrase: argument_views(arguments@)[2],
                name: decode_utf8(argument_views(arguments@)[3]),
                invitation_out: argument_views(arguments@)[4],
                response_in: argument_views(arguments@)[5],
                initiator_confirmation_in: argument_views(arguments@)[6],
                receiver_confirmation_out: argument_views(arguments@)[7],
            }),
        invoked_as(argument_views(arguments@), "contact-respond"@, 7) && valid_utf8(argument_views(arguments@)[3]) ==> (result matches Ok(r) && r@ == CommandView::ContactRespond {
                profile: argument_views(arguments@)[1],
                passphrase: argument_views(arguments@)[2],
                name: decode_utf8(argument_views(arguments@)[3]),
                invitation_in: argument_views(arguments@)[4],
                response_out: argument_views(arguments@)[5],
                initiator_confirmation_out: argument_views(arguments@)[6],
                receiver_confirmation_in: argument_views(arguments@)[7],
            }),
        invoked_as(argument_views(arguments@), "contacts"@, 2) ==> (result matches Ok(r) && r@ == CommandView::Contacts { profile: argument_views(arguments@)[1], passphrase: argument_views(arguments@)[2] }),
        invoked_as(argument_views(arguments@), "send"@, 7) && valid_utf8(argument_views(arguments@)[4]) && valid_utf8(argument_views(arguments@)[6]) && valid_utf8(argument_views(arguments@)[7]) && decimal_u64(argument_views(arguments@)[6]) is Some && decimal_u64(argument_views(arguments@)[7]) is Some ==> (result matches Ok(r) && r@ == CommandView::Send {
                profile: argument_views(arguments@)[1],
                passphrase: argument_views(arguments@)[2],
                node: argument_views(arguments@)[3],
                contact: decode_utf8(argument_views(arguments@)[4]),
                message: argument_views(arguments@)[5],
                ttl_seconds: decimal_u64(argument_views(arguments@)[6])->0,
                max_hops: decimal_u64(argument_views(arguments@)[7])->0,
            }),
        invoked_as(argument_views(arguments@), "listen"@, 2) && valid_utf8(argument_views(arguments@)[2]) ==> (result matches Ok(r) && r@ == CommandView::Listen { node: argument_views(arguments@)[1], address: decode_utf8(argument_views(arguments@)[2]) }),
        invoked_as(argument_views(arguments@), "connect"@, 2) && valid_utf8(argument_views(arguments@)[2]) ==> (result matches Ok(r) && r@ == CommandView::Connect { node: argument_views(arguments@)[1], address: decode_utf8(argument_views(arguments@)[2]) }),
        invoked_as(argument_views(arguments@), "receive"@, 3) ==> (result matches Ok(r) && r@ == CommandView::Receive { profile: argument_views(arguments@)[1], passphrase: argument_views(arguments@)[2], node: argument_views(arguments@)[3] }),
        invoked_as(argument_views(arguments@), "inbox"@, 2) ==> (result matches Ok(r) && r@ == CommandView::Inbox { profile: argument_views(arguments@)[1], passphrase: argument_views(arguments@)[2] }),
        invoked_as(argument_views(arguments@), "diagnostics"@, 1) ==> (result matches Ok(r) && r@ == CommandView::Diagnostics { node: argument_views(arguments@)[1] }),
{
    proof {
        law_parse_positions(argument_views(arguments@));
    }
    if arguments.len() == 0 {
        return Err(CliError::Usage);
    }
    let command = match text_from_utf8(arguments[0].as_slice()) {
        Some(t) => t,
        None => {
            return Err(CliError::Usage);
        },
    };
    let mut values: Vec<Vec<u8>> = Vec::new();
    let mut i: usize = 1;
    while i < arguments.len()
        invariant
            1 <= i <= arguments@.len(),
            values@.len() == i - 1,
            forall|j: int| 0 <= j < i - 1 ==> #[trigger] values@[j]@ == arguments@[j + 1]@,
        decreases arguments@.len() - i,
    {
        values.push(arguments[i].clone());
        i = i + 1;
    }
    let name = command.as_str();
    let n = values.len();
    proof {
        reveal_strlit("help");
        reveal_strlit("profile-init");
        reveal_strlit("node-init");
        reveal_strlit("contact-invite");
        reveal_strlit("contact-respond");
        reveal_strlit("contacts");
        reveal_strlit("send");
        reveal_strlit("listen");
        reveal_strlit("connect");
        reveal_strlit("receive");
        reveal_strlit("inbox");
        reveal_strlit("diagnostics");
        assert("send"@.len() == 4);
        assert("help"@.len() == 4);
        assert("send"@[0] != "help"@[0]);
        assert("profile-init"@.len() == 12);
        assert("node-init"@.len() == 9);
        assert("contact-invite"@.len() == 14);
        assert("contact-respond"@.len() == 15);
        assert("contacts"@.len() == 8);
    }
    if same_text(name, "help") {
        if n != 0 {
            return Err(CliError::Usage);
        }
        assert("help"@.len() == 4);
        assert(arity("help"@) == 0);
        return Ok(Command::Help);
    }
    if same_text(name, "profile-init") {
        if n != 2 {
            return Err(CliError::Usage);
        }
        assert("profile-init"@.len() == 12);
        assert(arity("profile-init"@) == 2);
        return Ok(Command::ProfileInit { profile: path_at(&values, 0), passphrase: path_at(&values, 1) });
    }
    if same_text(name, "node-init") {
        if n != 1 {
            return Err(CliError::Usage);
        }
        assert("node-init"@.len() == 9);
        assert(arity("node-init"@) == 1);
        return Ok(Command::NodeInit { node: path_at(&values, 0) });
    }
    if same_text(name, "contact-invite") {
        if n != 7 {
            return Err(CliError::Usage);
        }
        let profile = path_at(&values, 0);
        let passphrase = path_at(&values, 1);
        let contact_name = match text_at(&values, 2) {
            Ok(t) => t,
            Err(e) => {
                return Err(e);
            },
        };
        assert("contact-invite"@.len() == 14);
        assert(arity("contact-invite"@) == 7);
        return Ok(
            Command::ContactInvite {
                profile,
                passphrase,
                name: contact_name,
                invitation_out: path_at(&values, 3),
                response_in: path_at(&values, 4),
                initiator_confirmation_in: path_at(&values, 5),
                receiver_confirmation_out: path_at(&values, 6),
            },
        );
    }
    if same_text(name, "contact-respond") {
        if n != 7 {
            return Err(CliError::Usage);
        }
        let profile = path_at(&values, 0);
        let passphrase = path_at(&values, 1);
        let contact_name = match text_at(&values, 2) {
            Ok(t) => t,
            Err(e) => {
                return Err(e);
            },
        };
        assert("contact-respond"@.len() == 15);
        assert(arity("contact-respond"@) == 7);
        return Ok(
            Command::ContactRespond {
                profile,
                passphrase,
                name: contact_name,
                invitation_in: path_at(&values, 3),
                response_out: path_at(&values, 4),
                initiator_confirmation_out: path_at(&values, 5),
                receiver_confirmation_in: path_at(&values, 6),
            },
        );
    }
    if same_text(name, "contacts") {
        if n != 2 {
            return Err(CliError::Usage);
        }
        assert("contacts"@.len() == 8);
        assert(arity("contacts"@) == 2);
        return Ok(Command::Contacts { profile: path_at(&values, 0), passphrase: path_at(&values, 1) });
    }
    if same_text(name, "send") {
        if n != 7 {
            return Err(CliError::Usage);
        }
        let profile = path_at(&values, 0);
        let passphrase = path_at(&values, 1);
        let node = path_at(&values, 2);
        let contact = match text_at(&values, 3) {
            Ok(t) => t,
            Err(e) => {
                return Err(e);
            },
        };
        let message = path_at(&values, 4);
        let ttl_seconds = match number_at(&values, 5) {
            Ok(v) => v,
            Err(e) => {
                return Err(e);
            },
        };
        let max_hops = match number_at(&values, 6) {
            Ok(v) => v,
            Err(e) => {
                return Err(e);
            },
        };
        assert("send"@.len() == 4);
        assert(arity("send"@) == 7);
        return Ok(Command::Send { profile, passphrase, node, contact, message, ttl_seconds, max_hops });
    }
    if same_text(name, "listen") || same_text(name, "connect") {
        if n != 2 {
            return Err(CliError::Usage);
        }
        let node = path_at(&values, 0);
        let address = match text_at(&values, 1) {
            Ok(t) => t,
            Err(e) => {
                return Err(e);
            },
        };
        if same_text(name, "listen") {
            assert(arity("listen"@) == 2);
            return Ok(Command::Listen { node, address });
        }
        assert(arity("connect"@) == 2);
        return Ok(Command::Connect { node, address });
    }
    if same_text(name, "receive") {
        if n != 3 {
            return Err(CliError::Usage);
        }
        assert("receive"@.len() == 7);
        assert("receive"@[0] != "connect"@[0]);
        assert(arity("receive"@) == 3);
        return Ok(
            Command::Receive {
                profile: path_at(&values, 0),
                passphrase: path_at(&values, 1),
                node: path_at(&values, 2),
            },
        );
    }
    if same_text(name, "inbox") {
        if n != 2 {
            return Err(CliError::Usage);
        }
        assert("inbox"@.len() == 5);
        assert(arity("inbox"@) == 2);
        return Ok(Command::Inbox { profile: path_at(&values, 0), passphrase: path_at(&values, 1) });
    }
    if same_text(name, "diagnostics") {
        if n != 1 {
            return Err(CliError::Usage);
        }
        assert("diagnostics"@.len() == 11);
        assert(arity("diagnostics"@) == 1);
        return Ok(Command::Diagnostics { node: path_at(&values, 0) });
    }
    Err(CliError::Usage)
}

/// How long a contact exchange waits for the other side's file.
pub const CONTACT_WAIT_MILLISECONDS: u64 = 120000;

/// How long the wait pauses between two looks at the file.
pub const CONTACT_POLL_MILLISECONDS: u64 = 50;

/// The permission bits of a file mode.
pub open spec fn permission_bits(mode: u32) -> int {
    (mode % 512) as int
}

/// The low nine mode bits are the owner's, the group's and everyone else's
/// three permission bits.
pub proof fn lemma_permission_classes(mode: u32)
    ensures
        permission_bits(mode) == 64 * ((mode / 64) % 8) + 8 * ((mode / 8) % 8) + mode % 8,
{
    let m = mode as int;
    assert(m % 512 == 64 * ((m / 64) % 8) + 8 * ((m / 8) % 8) + m % 8) by (nonlinear_arith)
        requires
            m >= 0,
    ;
}

/// What the private checks ask of permissions, by class: a private
/// directory is readable, writable and searchable by its owner and open to
/// nobody else; a private file is readable and writable by its owner only;
/// a link or an object of the wrong kind is never private.
pub proof fn law_private_permissions(mode: u32, link_count: u64, len: u64, limit: u64)
    ensures
        private_directory_ok(false, true, mode) <==> ((mode / 64) % 8 == 7 && (mode / 8) % 8 == 0
            && mode % 8 == 0),
        private_file_ok(false, true, mode, 1, len, limit) <==> ((mode / 64) % 8 == 6 && (mode / 8)
            % 8 == 0 && mode % 8 == 0 && len <= limit),
        !private_directory_ok(true, true, mode),
        !private_directory_ok(false, false, mode),
        !private_file_ok(true, true, mode, link_count, len, limit),
        !private_file_ok(false, false, mode, link_count, len, limit),
        link_count != 1 ==> !private_file_ok(false, true, mode, link_count, len, limit),
        len > limit ==> !private_file_ok(false, true, mode, link_count, len, limit),
{
    lemma_permission_classes(mode);
}

/// A private directory: a real directory, not a link, open to its owner alone.
pub open spec fn private_directory_ok(is_symlink: bool, is_dir: bool, mode: u32) -> bool {
    !is_symlink && is_dir && permission_bits(mode) == 0o700
}

/// Checks the metadata of a private directory; `UnsafeFile` when it is not
/// `private_directory_ok`.
pub fn check_private_directory(is_symlink: bool, is_dir: bool, mode: u32) -> (result: Result<
    (),
    CliError,
>)
    ensures
        private_directory_ok(is_symlink, is_dir, mode) ==> result is Ok,
        !private_directory_ok(is_symlink, is_dir, mode) ==> result == Err::<(), CliError>(
            CliError::UnsafeFile,
        ),
{
    if is_symlink || !is_dir || mode % 512 != 0o700 {
        return Err(CliError::UnsafeFile);
    }
    Ok(())
}

/// A private file: a regular file, not a link, readable and writable by its
/// owner alone, with one name, and no larger than `limit`.
pub open spec fn private_file_ok(
    is_symlink: bool,
    is_file: bool,
    mode: u32,
    link_count: u64,
    len: u64,
    limit: u64,
) -> bool {
    !is_symlink && is_file && permission_bits(mode) == 0o600 && link_count == 1 && len <= limit
}

/// Checks the metadata of a private file before it is read; `UnsafeFile`
/// when it is not `private_file_ok`.
pub fn check_private_file(
    is_symlink: bool,
    is_file: bool,
    mode: u32,
    link_count: u64,
    len: u64,
    limit: u64,
) -> (result: Result<(), CliError>)
    ensures
        private_file_ok(is_symlink, is_file, mode, link_count, len, limit) ==> result is Ok,
        !private_file_ok(is_symlink, is_file, mode, link_count, len, limit) ==> result == Err::<
            (),
            CliError,
        >(CliError::UnsafeFile),
{
    if is_symlink || !is_file || mode % 512 != 0o600 || link_count != 1 || len > limit {
        return Err(CliError::UnsafeFile);
    }
    Ok(())
}

/// Checks the number of bytes read from a private file whose size was
/// checked against `limit`: more than `limit` means the file grew.
pub fn check_read_length(read: u64, limit: u64) -> (result: Result<(), CliError>)
    ensures
        read <= limit ==> result is Ok,
        read > limit ==> result == Err::<(), CliError>(CliError::InvalidText),
{
    if read > limit {
        return Err(CliError::InvalidText);
    }
    Ok(())
}

/// What the wait for a contact file does after one look at it.
#[derive(Clone, Copy, Debug, PartialEq, Eq, Structural)]
pub enum WaitStep {
    /// The file is complete: read it.
    Read,
    /// Not there yet, or still being linked into place: look again after a pause.
    Retry,
    /// Give up with this error.
    Fail(CliError),
}

/// What one look at the awaited file gives, as `wait_step` decides it.
pub open spec fn wait_step_spec(
    found: bool,
    is_symlink: bool,
    is_file: bool,
    mode: u32,
    link_count: u64,
    len: u64,
    limit: u64,
    elapsed_milliseconds: u64,
) -> WaitStep {
    if found && (is_symlink || !is_file || permission_bits(mode) != 0o600 || len > limit) {
        WaitStep::Fail(CliError::UnsafeFile)
    } else if found && link_count == 1 {
        WaitStep::Read
    } else if elapsed_milliseconds >= CONTACT_WAIT_MILLISECONDS {
        WaitStep::Fail(CliError::Timeout)
    } else {
        WaitStep::Retry
    }
}

/// Decides the next step of waiting for the other side's contact file:
/// a file that is there but unsafe fails at once; one that still has more
/// than one name is being moved into place, like a missing one, and is
/// looked at again until the wait has lasted two minutes.
pub fn wait_step(
    found: bool,
    is_symlink: bool,
    is_file: bool,
    mode: u32,
    link_count: u64,
    len: u64,
    limit: u64,
    elapsed_milliseconds: u64,
) -> (step: WaitStep)
    ensures
        step == wait_step_spec(
            found,
            is_symlink,
            is_file,
            mode,
            link_count,
            len,
            limit,
            elapsed_milliseconds,
        ),
{
    if found && (is_symlink || !is_file || mode % 512 != 0o600 || len > limit) {
        WaitStep::Fail(CliError::UnsafeFile)
    } else if found && link_count == 1 {
        WaitStep::Read
    } else if elapsed_milliseconds >= CONTACT_WAIT_MILLISECONDS {
        WaitStep::Fail(CliError::Timeout)
    } else {
        WaitStep::Retry
    }
}

/// Checks what was read from the awaited file: 1 to `limit` bytes.
pub fn check_awaited_length(read: u64, limit: u64) -> (result: Result<(), CliError>)
    ensures
        0 < read <= limit ==> result is Ok,
        !(0 < read <= limit) ==> result == Err::<(), CliError>(CliError::InvalidText),
{
    if read == 0 || read > limit {
        return Err(CliError::InvalidText);
    }
    Ok(())
}

/// The bytes with one final line break, `\n` or `\r\n`, removed.
pub open spec fn strip_newline(b: Seq<u8>) -> Seq<u8> {
    if b.len() >= 2 && b[b.len() - 2] == 13 && b[b.len() - 1] == 10 {
        b.take(b.len() - 2)
    } else if b.len() >= 1 && b[b.len() - 1] == 10 {
        b.take(b.len() - 1)
    } else {
        b
    }
}

/// Removes one final line break from text read from a file.
pub fn strip_final_newline(bytes: &mut Vec<u8>)
    ensures
        final(bytes)@ == strip_newline(old(bytes)@),
{
    let n = bytes.len();
    if n >= 2 && bytes[n - 2] == 13 && bytes[n - 1] == 10 {
        bytes.truncate(n - 2);
    } else if n >= 1 && bytes[n - 1] == 10 {
        bytes.truncate(n - 1);
    }
    assert(final(bytes)@ =~= strip_newline(old(bytes)@));
}

/// Text without any control character.
pub open spec fn no_control(t: Seq<char>) -> bool {
    forall|i: int| 0 <= i < t.len() ==> !is_control(#[trigger] t[i])
}

/// A message read from a file: its final line break is dropped, and what is
/// left must be UTF-8 of 1 to `max_bytes` bytes without control characters.
pub open spec fn message_ok(bytes: Seq<u8>, max_bytes: usize) -> bool {
    let s = strip_newline(bytes);
    &&& valid_utf8(s)
    &&& 0 < s.len() <= max_bytes
    &&& no_control(decode_utf8(s))
}

/// The message text of a file's bytes; anything unacceptable is `InvalidText`.
pub fn message_text(bytes: Vec<u8>, max_bytes: usize) -> (result: Result<String, CliError>)
    ensures
        message_ok(bytes@, max_bytes) ==> (result matches Ok(t) && t@ == decode_utf8(
            strip_newline(bytes@),
        )),
        !message_ok(bytes@, max_bytes) ==> result == Err::<String, CliError>(CliError::InvalidText),
{
    let mut bytes = bytes;
    strip_final_newline(&mut bytes);
    let text = match text_from_utf8(bytes.as_slice()) {
        Some(t) => t,
        None => {
            return Err(CliError::InvalidText);
        },
    };
    if bytes.len() == 0 || bytes.len() > max_bytes || has_control_char(text.as_str()) {
        return Err(CliError::InvalidText);
    }
    Ok(text)
}

/// The passphrase of a file's bytes: its final line break is dropped and what
/// is left must be UTF-8 without control characters (`InvalidText`) and an
/// acceptable passphrase (`Profile`).
pub fn passphrase_text(bytes: Vec<u8>) -> (result: Result<Passphrase, CliError>)
    ensures
        !valid_utf8(strip_newline(bytes@)) ==> result == Err::<Passphrase, CliError>(
            CliError::InvalidText,
        ),
        valid_utf8(strip_newline(bytes@)) && !no_control(decode_utf8(strip_newline(bytes@)))
            ==> result == Err::<Passphrase, CliError>(CliError::InvalidText),
        valid_utf8(strip_newline(bytes@)) && no_control(decode_utf8(strip_newline(bytes@)))
            ==> (if crate::secret_storage::header::passphrase_ok(
            decode_utf8(strip_newline(bytes@)),
        ) {
            result matches Ok(p) && p@ == strip_newline(bytes@)
        } else {
            result == Err::<Passphrase, CliError>(CliError::Profile)
        }),
{
    let mut bytes = bytes;
    strip_final_newline(&mut bytes);
    let text = match text_from_utf8(bytes.as_slice()) {
        Some(t) => t,
        None => {
            return Err(CliError::InvalidText);
        },
    };
    if has_control_char(text.as_str()) {
        return Err(CliError::InvalidText);
    }
    proof {
        vstd::utf8::decode_utf8_encode_utf8(bytes@);
    }
    match Passphrase::new(text) {
        Ok(p) => Ok(p),
        Err(_) => Err(CliError::Profile),
    }
}

/// A contact's display name must be 1 to 128 bytes without control characters.
pub fn validate_display_name(value: &str) -> (result: Result<(), CliError>)
    ensures
        result is Ok <==> display_name_ok(value@),
        result matches Err(e) ==> e == CliError::InvalidText,
{
    if value.is_empty() || value.as_bytes().len() > 128 || has_control_char(value) {
        Err(CliError::InvalidText)
    } else {
        Ok(())
    }
}

/// The typed answer, without one final carriage return, is `MATCH`; an
/// answer of eight or more bytes is refused before it is read further.
pub open spec fn sas_answer_ok(line: Seq<u8>) -> bool {
    let trimmed = if line.len() > 0 && line[line.len() - 1] == 13 {
        line.take(line.len() - 1)
    } else {
        line
    };
    line.len() < 8 && trimmed == encode_utf8("MATCH"@)
}

/// Checks the answer typed after the short authentication string was shown:
/// the bytes read before the line break or the end of input.
pub fn check_sas_answer(line: &[u8]) -> (result: Result<(), CliError>)
    ensures
        result is Ok <==> sas_answer_ok(line@),
        result matches Err(e) ==> e == CliError::SasRejected,
{
    if line.len() >= 8 {
        return Err(CliError::SasRejected);
    }
    let length: usize = if line.len() > 0 && line[line.len() - 1] == 13 {
        line.len() - 1
    } else {
        line.len()
    };
    let trimmed = crate::cbor::copy_range(line, 0, length);
    assert(trimmed@ =~= (if line@.len() > 0 && line@[line@.len() - 1] == 13 {
        line@.take(line@.len() - 1)
    } else {
        line@
    }));
    if !crate::cbor::slices_equal(trimmed.as_slice(), "MATCH".as_bytes()) {
        return Err(CliError::SasRejected);
    }
    Ok(())
}

/// How many of the names equal `name`.
pub open spec fn name_count(names: Seq<Seq<char>>, name: Seq<char>) -> int
    decreases names.len(),
{
    if names.len() == 0 {
        0
    } else {
        name_count(names.drop_last(), name) + if names.last() == name {
            1int
        } else {
            0int
        }
    }
}

/// Finds the one contact with the given display name: `UnknownContact` when
/// none has it, `AmbiguousContact` when several do.
pub fn find_contact(names: &Vec<String>, ids: &Vec<ContactId>, name: &str) -> (result: Result<
    ContactId,
    CliError,
>)
    requires
        names@.len() == ids@.len(),
    ensures
        name_count(names@.map_values(|n: String| n@), name@) == 0 ==> result == Err::<
            ContactId,
            CliError,
        >(CliError::UnknownContact),
        name_count(names@.map_values(|n: String| n@), name@) > 1 ==> result == Err::<
            ContactId,
            CliError,
        >(CliError::AmbiguousContact),
        name_count(names@.map_values(|n: String| n@), name@) == 1 ==> (result matches Ok(id)
            && exists|i: int| 0 <= i < names@.len() && names@[i]@ == name@ && ids@[i] == id),
{
    let ghost all = names@.map_values(|n: String| n@);
    let mut found: Option<ContactId> = None;
    let mut count: usize = 0;
    let mut i: usize = 0;
    while i < names.len()
        invariant
            0 <= i <= names@.len(),
            names@.len() == ids@.len(),
            all == names@.map_values(|n: String| n@),
            count == name_count(all.take(i as int), name@),
            count <= i,
            count == 0 <==> found is None,
            found matches Some(id) ==> exists|j: int|
                0 <= j < i && names@[j]@ == name@ && ids@[j] == id,
        decreases names@.len() - i,
    {
        assert(all.take(i as int + 1).drop_last() =~= all.take(i as int));
        let same = same_text(names[i].as_str(), name);
        if same {
            if count == 0 {
                found = Some(ids[i]);
            }
            count = count + 1;
        }
        i = i + 1;
    }
    assert(all.take(i as int) =~= all);
    if count == 0 {
        return Err(CliError::UnknownContact);
    }
    if count > 1 {
        return Err(CliError::AmbiguousContact);
    }
    match found {
        Some(id) => Ok(id),
        None => Err(CliError::UnknownContact),
    }
}

/// Decimal numbers read as written: appending a digit multiplies the value
/// so far by ten and adds the digit; a run of digits whose value fits is
/// read as that value, with or without a leading `+`; text with anything
/// but digits after the sign, or nothing at all, is no number.
pub proof fn law_decimal_digits(digits: Seq<u8>, d: u8)
    ensures
        48 <= d <= 57 ==> decimal_value(digits.push(d)) == decimal_value(digits) * 10 + (d - 48),
        decimal_value(Seq::<u8>::empty()) == 0,
        digits.len() > 0 && all_digits(digits) && decimal_value(digits) <= u64::MAX ==> decimal_u64(
            digits,
        ) == Some(decimal_value(digits) as u64) && decimal_u64(seq![43u8] + digits) == decimal_u64(
            digits,
        ),
        decimal_u64(Seq::<u8>::empty()) is None,
        decimal_u64(seq![43u8]) is None,
        (d < 48 || d > 57) && d != 43 ==> decimal_u64(seq![d] + digits) is None,
{
    assert(digits.push(d).drop_last() =~= digits);
    assert((seq![43u8] + digits).skip(1) =~= digits);
    assert(seq![43u8].skip(1) =~= Seq::<u8>::empty());
    if (d < 48 || d > 57) && d != 43 {
        assert((seq![d] + digits)[0] == d);
    }
}

/// Waiting for the other side's file: a file that is there but unsafe fails
/// at once however long the wait has lasted; a safe file with one name is
/// read at once; a missing file, or one still being moved into place, is
/// looked at again before two minutes have passed and times out after.
pub proof fn law_wait_steps(
    is_symlink: bool,
    is_file: bool,
    mode: u32,
    link_count: u64,
    len: u64,
    limit: u64,
    elapsed_milliseconds: u64,
)
    ensures
        is_symlink || !is_file || len > limit ==> wait_step_spec(
            true,
            is_symlink,
            is_file,
            mode,
            link_count,
            len,
            limit,
            elapsed_milliseconds,
        ) == WaitStep::Fail(CliError::UnsafeFile),
        private_file_ok(is_symlink, is_file, mode, 1, len, limit) ==> wait_step_spec(
            true,
            is_symlink,
            is_file,
            mode,
            1,
            len,
            limit,
            elapsed_milliseconds,
        ) == WaitStep::Read,
        elapsed_milliseconds < CONTACT_WAIT_MILLISECONDS ==> wait_step_spec(
            false,
            is_symlink,
            is_file,
            mode,
            link_count,
            len,
            limit,
            elapsed_milliseconds,
        ) == WaitStep::Retry,
        elapsed_milliseconds >= CONTACT_WAIT_MILLISECONDS ==> wait_step_spec(
            false,
            is_symlink,
            is_file,
            mode,
            link_count,
            len,
            limit,
            elapsed_milliseconds,
        ) == WaitStep::Fail(CliError::Timeout),
        CONTACT_WAIT_MILLISECONDS == 120000,
{
}

/// One final line break is dropped, `\n` or `\r\n`, and nothing else:
/// text without a final line feed is kept as it is.
pub proof fn law_strip_newline(b: Seq<u8>)
    ensures
        strip_newline(b.push(10u8)) == b || (b.len() > 0 && b.last() == 13 && strip_newline(b.push(
            10u8,
        )) == b.drop_last()),
        strip_newline(b + seq![13u8, 10u8]) == b,
        (b.len() == 0 || b.last() != 10) ==> strip_newline(b) == b,
        strip_newline(b).len() <= b.len(),
{
    assert(b.push(10u8).take(b.len() as int) =~= b);
    assert((b + seq![13u8, 10u8]).take(b.len() as int) =~= b);
    if b.len() > 0 && b.last() == 13 {
        assert(b.push(10u8).take(b.len() - 1) =~= b.drop_last());
    }
}

/// The only accepted answers are `MATCH`, typed alone or followed by a
/// carriage return.
pub proof fn law_sas_answer(line: Seq<u8>)
    ensures
        sas_answer_ok(line) <==> (line == seq![77u8, 65u8, 84u8, 67u8, 72u8] || line == seq![
            77u8,
            65u8,
            84u8,
            67u8,
            72u8,
            13u8,
        ]),
{
    reveal_strlit("MATCH");
    let m = "MATCH"@;
    assert(m =~= seq!['M', 'A', 'T', 'C', 'H']);
    assert(vstd::utf8::is_ascii_chars(m));
    vstd::utf8::is_ascii_chars_encode_utf8(m);
    let e = encode_utf8(m);
    let w = seq![77u8, 65u8, 84u8, 67u8, 72u8];
    assert(e =~= w);
    let w13 = w.push(13u8);
    assert(seq![77u8, 65u8, 84u8, 67u8, 72u8, 13u8] =~= w13);
    if line == w13 {
        assert(line.take(line.len() - 1) =~= w);
    }
    if sas_answer_ok(line) {
        if line.len() > 0 && line[line.len() - 1] == 13 {
            assert(line =~= line.take(line.len() - 1).push(13u8));
        }
    }
}

/// Counting names: none counts nothing, one name counts one exactly when it
/// is the name sought, and the count of two lists is the sum of their counts.
pub proof fn law_name_count(a: Seq<Seq<char>>, b: Seq<Seq<char>>, x: Seq<char>, name: Seq<char>)
    ensures
        name_count(Seq::<Seq<char>>::empty(), name) == 0,
        name_count(seq![x], name) == (if x == name {
            1int
        } else {
            0int
        }),
        name_count(a + b, name) == name_count(a, name) + name_count(b, name),
    decreases b.len(),
{
    assert(seq![x].drop_last() =~= Seq::<Seq<char>>::empty());
    assert(seq![x].last() == x);
    assert(name_count(seq![x].drop_last(), name) == 0);
    if b.len() > 0 {
        law_name_count(a, b.drop_last(), x, name);
        assert((a + b).drop_last() =~= a + b.drop_last());
        assert((a + b).last() == b.last());
    } else {
        assert(a + b =~= a);
    }
}

} // verus!
