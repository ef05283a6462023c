//! The control sockets of the native simulator: their names, and which replies are taken.

use crate::reading::{law_decimals_are_read_back, reads_as};
use crate::text::{bytes_of, decimal, push_decimal, same_bytes};
use crate::text::{lemma_decimal_injective, lemma_same_bytes};
use vstd::prelude::*;
use vstd::string::*;
use vstd::utf8::{decode_utf8, encode_utf8, encode_utf8_decode_utf8};

verus! {

/// The number of the first connection of a process.
pub const FIRST_CONNECTION: u32 = 0x4000_0000;

/// The greatest number that a connection counter reaches.
pub const LAST_CONNECTION: u32 = 0x7fff_ffff;

/// Why a control exchange failed.
#[derive(Clone, Copy, Debug, PartialEq, Eq, Structural)]
pub enum ControlError {
    /// Connection numbers are used up.
    TooManyConnections,
    /// The simulator refused, or answered something else.
    Mismatch,
    /// The simulator attached the client elsewhere.
    UnexpectedEndpoint,
}

impl ControlError {
    pub open spec fn says(self) -> Seq<char> {
        match self {
            ControlError::TooManyConnections => "ibsim connection ID overflow"@,
            ControlError::Mismatch => "ibsim rejected or mismatched control request"@,
            ControlError::UnexpectedEndpoint => "ibsim attached to an unexpected endpoint"@,
        }
    }

    pub fn text(self) -> (r: &'static str)
        ensures
            r@ == self.says(),
    {
        match self {
            ControlError::TooManyConnections => "ibsim connection ID overflow",
            ControlError::Mismatch => "ibsim rejected or mismatched control request",
            ControlError::UnexpectedEndpoint => "ibsim attached to an unexpected endpoint",
        }
    }
}

/// How long a client waits for a request to be taken, and for its reply, in milliseconds.
pub const PATIENCE: u64 = 300;

/// The counter after a connection took the number `n`; `None` if `n` cannot be taken.
pub open spec fn connection_after(n: u32) -> Option<u32> {
    if n < LAST_CONNECTION {
        Some((n + 1) as u32)
    } else {
        None
    }
}

/// The counter after a connection took the number `n`; `None` if `n` cannot be taken.
pub fn next_connection(n: u32) -> (r: Option<u32>)
    ensures
        r == connection_after(n),
{
    if n < LAST_CONNECTION {
        Some(n + 1)
    } else {
        None
    }
}

/// The abstract socket address of a name: native names end in a NUL byte.
pub open spec fn socket_address(name: Seq<char>) -> Seq<u8> {
    encode_utf8(name).push(0)
}

/// The abstract socket address of a name.
pub fn address(name: &str) -> (r: Vec<u8>)
    ensures
        r@ == socket_address(name@),
{
    let mut out = bytes_of(name);
    out.push(0);
    out
}

/// Where a client receives MADs.
pub open spec fn data_name(base: Seq<char>, id: nat) -> Seq<char> {
    base + ":in"@ + decimal(id)
}

/// Where a client receives control replies.
pub open spec fn control_name(base: Seq<char>, id: nat) -> Seq<char> {
    base + ":ctl"@ + decimal(id)
}

/// Where the simulator receives control requests.
pub open spec fn server_name(base: Seq<char>) -> Seq<char> {
    base + ":ctl"@
}

/// The sockets of a client.
#[derive(Debug)]
pub struct Sockets {
    /// Where the client receives MADs.
    pub data: Vec<u8>,
    /// Where the client receives control replies.
    pub control: Vec<u8>,
    /// Where the simulator receives control requests.
    pub server: Vec<u8>,
}

/// The sockets of the client `id` of the fabric `base`.
pub fn sockets(base: &str, id: u32) -> (r: Sockets)
    ensures
        r.data@ == socket_address(data_name(base@, id as nat)),
        r.control@ == socket_address(control_name(base@, id as nat)),
        r.server@ == socket_address(server_name(base@)),
{
    let mut data = base.to_owned();
    data.append(":in");
    push_decimal(&mut data, id as u64);
    let mut server = base.to_owned();
    server.append(":ctl");
    let mut control = server.clone();
    push_decimal(&mut control, id as u64);
    Sockets {
        data: address(data.as_str()),
        control: address(control.as_str()),
        server: address(server.as_str()),
    }
}

/// A client that is about to ask.
#[derive(Debug)]
pub struct Connection {
    /// The number that it has taken.
    pub id: u32,
    pub sockets: Sockets,
}

/// Takes a number from the counter of the process, and gives the sockets of the client of that
/// number. Where no number is left, there are no sockets, and the counter stays.
pub fn take_connection(counter: &mut u32, base: &str) -> (r: Result<Connection, ControlError>)
    ensures
        match r {
            Ok(c) => {
                &&& connection_after(*old(counter)) == Some(*final(counter))
                &&& c.id == *old(counter)
                &&& c.sockets.data@ == socket_address(data_name(base@, c.id as nat))
                &&& c.sockets.control@ == socket_address(control_name(base@, c.id as nat))
                &&& c.sockets.server@ == socket_address(server_name(base@))
            },
            Err(e) => {
                &&& connection_after(*old(counter)) is None
                &&& *final(counter) == *old(counter)
                &&& e == ControlError::TooManyConnections
            },
        },
{
    let id: u32 = *counter;
    match next_connection(id) {
        Some(n) => {
            *counter = n;
            Ok(Connection { id, sockets: sockets(base, id) })
        },
        None => Err(ControlError::TooManyConnections),
    }
}

/// The counter of a process after `n` connections were asked for.
pub open spec fn connection_counter(n: nat) -> u32
    decreases n,
{
    if n == 0 {
        FIRST_CONNECTION
    } else {
        let c = connection_counter((n - 1) as nat);
        match connection_after(c) {
            Some(next) => next,
            None => c,
        }
    }
}

/// The number that the `n`-th connection of a process is given, the first being the zeroth; `None`
/// if it is refused.
pub open spec fn connection_number(n: nat) -> Option<u32> {
    if connection_after(connection_counter(n)) is Some {
        Some(connection_counter(n))
    } else {
        None
    }
}

proof fn lemma_connection_counter(n: nat)
    ensures
        connection_counter(n) == (if FIRST_CONNECTION + n < LAST_CONNECTION {
            FIRST_CONNECTION + n
        } else {
            LAST_CONNECTION as int
        }),
    decreases n,
{
    if n > 0 {
        lemma_connection_counter((n - 1) as nat);
    }
}

/// The numbers of a process's connections begin at the first, stay below the last, and never
/// repeat, nor do the sockets; and once one is refused, every later one is.
pub proof fn law_connections_are_apart(base: Seq<char>, i: nat, j: nat)
    requires
        i < j,
    ensures
        connection_number(0) == Some(FIRST_CONNECTION),
        connection_number(i) is None ==> connection_number(j) is None,
        connection_number(j) matches Some(b) ==> {
            &&& FIRST_CONNECTION <= b < LAST_CONNECTION
            &&& connection_number(i) matches Some(a) && FIRST_CONNECTION <= a < b
                && socket_address(data_name(base, a as nat)) != socket_address(
                data_name(base, b as nat),
            ) && socket_address(control_name(base, a as nat)) != socket_address(
                control_name(base, b as nat),
            )
        },
{
    lemma_connection_counter(0);
    lemma_connection_counter(i);
    lemma_connection_counter(j);
    if connection_number(j) is Some {
        let a = connection_counter(i) as nat;
        let b = connection_counter(j) as nat;
        if socket_address(data_name(base, a)) == socket_address(data_name(base, b))
            || socket_address(control_name(base, a)) == socket_address(control_name(base, b)) {
            law_sockets_distinct(base, a, b);
        }
    }
}

/// What a client asks for and waits to be answered.
#[derive(Clone, Copy, Debug, PartialEq, Eq, Structural)]
pub enum RequestKind {
    Connect,
    GetPort,
}

/// What the simulator says that it answers.
#[derive(Clone, Copy, Debug, PartialEq, Eq, Structural)]
pub enum ReplyKind {
    Connect,
    GetPort,
    Error,
    Other,
}

/// The reply is to that request: of its kind, for its client, and no error.
pub open spec fn answers(
    request: RequestKind,
    request_client: u32,
    reply: ReplyKind,
    reply_client: u32,
) -> bool {
    &&& reply_client == request_client
    &&& match request {
        RequestKind::Connect => reply == ReplyKind::Connect,
        RequestKind::GetPort => reply == ReplyKind::GetPort,
    }
}

/// Takes the reply to a request, or refuses it.
pub fn exchange(
    request: RequestKind,
    request_client: u32,
    reply: ReplyKind,
    reply_client: u32,
) -> (r: Result<(), ControlError>)
    ensures
        match r {
            Ok(()) => answers(request, request_client, reply, reply_client),
            Err(e) => e == ControlError::Mismatch && !answers(
                request,
                request_client,
                reply,
                reply_client,
            ),
        },
{
    let same_kind = match request {
        RequestKind::Connect => reply == ReplyKind::Connect,
        RequestKind::GetPort => reply == ReplyKind::GetPort,
    };
    if same_kind && reply_client == request_client {
        Ok(())
    } else {
        Err(ControlError::Mismatch)
    }
}

/// A client that the simulator has attached to a node.
#[derive(Clone, Copy, Debug, PartialEq, Eq, Structural)]
pub struct Client {
    /// The number under which the simulator knows the client.
    pub id: u32,
}

impl Client {
    /// The client, if the simulator attached it to `node` under one of its `max_clients` numbers.
    pub fn attached(id: u32, max_clients: u32, node_id: &[u8], node: &str) -> (r: Result<
        Client,
        ControlError,
    >)
        ensures
            match r {
                Ok(client) => id < max_clients && node_id@ == encode_utf8(node@) && client.id == id,
                Err(e) => e == ControlError::UnexpectedEndpoint && (id >= max_clients || node_id@
                    != encode_utf8(node@)),
            },
    {
        if id >= max_clients || !same_bytes(node_id, node.as_bytes()) {
            Err(ControlError::UnexpectedEndpoint)
        } else {
            Ok(Client { id })
        }
    }
}

/// Different connections of a fabric have different sockets.
pub proof fn law_sockets_distinct(base: Seq<char>, a: nat, b: nat)
    requires
        socket_address(data_name(base, a)) == socket_address(data_name(base, b))
            || socket_address(control_name(base, a)) == socket_address(control_name(base, b)),
    ensures
        a == b,
{
    if socket_address(data_name(base, a)) == socket_address(data_name(base, b)) {
        lemma_address_injective(data_name(base, a), data_name(base, b));
        lemma_suffix(base + ":in"@, a, b);
    } else {
        lemma_address_injective(control_name(base, a), control_name(base, b));
        lemma_suffix(base + ":ctl"@, a, b);
    }
}

proof fn lemma_address_injective(a: Seq<char>, b: Seq<char>)
    requires
        socket_address(a) == socket_address(b),
    ensures
        a == b,
{
    assert(socket_address(a).drop_last() =~= encode_utf8(a));
    assert(socket_address(b).drop_last() =~= encode_utf8(b));
    lemma_same_bytes(a, b);
}

/// Numbers that follow the same text are the same if the whole is.
pub proof fn lemma_suffix(head: Seq<char>, a: nat, b: nat)
    requires
        head + decimal(a) == head + decimal(b),
    ensures
        a == b,
{
    assert((head + decimal(a)).skip(head.len() as int) =~= decimal(a));
    assert((head + decimal(b)).skip(head.len() as int) =~= decimal(b));
    lemma_decimal_injective(a, b);
}

/// The sockets of a client are named after the fabric, then `:in` or `:ctl`, then its number; that
/// of the simulator has no number; and every address is the bytes of its name and one NUL.
pub proof fn law_socket_names_tell_the_client(base: Seq<char>, id: nat, name: Seq<char>)
    ensures
        tells_client(data_name(base, id), base, ":in"@, id),
        tells_client(control_name(base, id), base, ":ctl"@, id),
        server_name(base) == base + ":ctl"@,
        socket_address(name).len() > 0,
        socket_address(name).last() == 0,
        decode_utf8(socket_address(name).drop_last()) == name,
{
    law_decimals_are_read_back(id);
    lemma_tells_client(base, ":in"@, id);
    lemma_tells_client(base, ":ctl"@, id);
    encode_utf8_decode_utf8(name);
    assert(socket_address(name).drop_last() =~= encode_utf8(name));
}

/// A name is that of the fabric, then `mark`, then the number of the client.
pub open spec fn tells_client(name: Seq<char>, base: Seq<char>, mark: Seq<char>, id: nat) -> bool {
    &&& name.len() > base.len() + mark.len()
    &&& name.take(base.len() as int) == base
    &&& name.skip(base.len() as int).take(mark.len() as int) == mark
    &&& reads_as(name.skip((base.len() + mark.len()) as int), id)
}

proof fn lemma_tells_client(base: Seq<char>, mark: Seq<char>, id: nat)
    ensures
        tells_client(base + mark + decimal(id), base, mark, id),
{
    law_decimals_are_read_back(id);
    let name = base + mark + decimal(id);
    assert(name.take(base.len() as int) =~= base);
    assert(name.skip(base.len() as int).take(mark.len() as int) =~= mark);
    assert(name.skip((base.len() + mark.len()) as int) =~= decimal(id));
}

/// The connections of a process are numbered from 0x4000_0000 up, without a gap, up to the last
/// number below the greatest `i32`; then there are no more.
pub proof fn law_connections_count_up(n: nat)
    ensures
        connection_number(n) == (if n < 0x3fff_ffff {
            Some((0x4000_0000 + n) as u32)
        } else {
            None
        }),
{
    lemma_connection_counter(n);
}

/// A reply is taken exactly if it is for the client that asked and of the kind that was asked for.
pub proof fn law_replies_that_are_taken(
    request: RequestKind,
    asked: u32,
    reply: ReplyKind,
    answered: u32,
)
    ensures
        answers(request, asked, reply, answered) <==> asked == answered && ((request
            == RequestKind::Connect && reply == ReplyKind::Connect) || (request
            == RequestKind::GetPort && reply == ReplyKind::GetPort)),
{
}

} // verus!
