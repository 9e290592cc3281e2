//! Single-instance negotiation on Windows.
//!
//! The first process to create a named mutex is the primary instance. It owns
//! a hidden window that later processes find by name and send their payload
//! to in a `WM_COPYDATA` message. This module holds every decision of that
//! protocol; the caller makes the system calls and hands their results back.
use vstd::prelude::*;
use vstd::std_specs::iter::IteratorSpec;
use vstd::string::StringExecFns;
use crate::context::valid_identifier;
use crate::context::Context;
use crate::context::Role;
use crate::error::Error;
use crate::error::IoError;
use crate::payload::decode;
use crate::payload::decoded;
use crate::payload::encode;
use crate::payload::round_trip;
use crate::payload::transmissible;
use crate::payload::wire_bytes;
use crate::payload::Payload;
use crate::payload::PayloadView;

verus! {

/// The error code that follows the creation of a named object that existed.
pub const ERROR_ALREADY_EXISTS: u32 = 183;

/// The message that carries data from one process to a window of another.
pub const WM_COPYDATA: u32 = 0x004A;

/// The message that a window receives when it is destroyed.
pub const WM_DESTROY: u32 = 0x0002;

/// Marks a `WM_COPYDATA` message as an invocation payload.
pub const WMCOPYDATA_SINGLE_INSTANCE_DATA: usize = 1542;

/// The extended style of a window that is never activated.
pub const WS_EX_NOACTIVATE: u32 = 0x0800_0000;

/// The extended style of a window that input passes through.
pub const WS_EX_TRANSPARENT: u32 = 0x0000_0020;

/// The extended style of a layered window, which is not drawn until it is
/// given its attributes.
pub const WS_EX_LAYERED: u32 = 0x0008_0000;

/// The extended style of a tool window, which never shows in the taskbar.
pub const WS_EX_TOOLWINDOW: u32 = 0x0000_0080;

/// The style of an overlapped window.
pub const WS_OVERLAPPED: u32 = 0x0000_0000;

/// The style of a visible window.
pub const WS_VISIBLE: u32 = 0x1000_0000;

/// The style of a pop-up window.
pub const WS_POPUP: u32 = 0x8000_0000;

/// The name of the window class of an application's endpoint.
pub open spec fn class_name(identifier: Seq<char>) -> Seq<char> {
    identifier + seq!['-', 's', 'i', 'c']
}

/// The name of the window of an application's endpoint.
pub open spec fn window_name(identifier: Seq<char>) -> Seq<char> {
    identifier + seq!['-', 's', 'i', 'w']
}

/// The name of the mutex that decides which instance is the primary one.
pub open spec fn mutex_name(identifier: Seq<char>) -> Seq<char> {
    identifier + seq!['-', 's', 'i', 'm']
}

/// The UTF-16 code units of one character.
pub open spec fn utf16_units(c: char) -> Seq<u16> {
    let v = c as u32;
    if v < 0x10000 {
        seq![v as u16]
    } else {
        seq![(0xD800 + (v - 0x10000) / 0x400) as u16, (0xDC00 + (v - 0x10000) % 0x400) as u16]
    }
}

/// The UTF-16 encoding of a text.
pub open spec fn utf16(s: Seq<char>) -> Seq<u16>
    decreases s.len(),
{
    if s.len() == 0 {
        Seq::empty()
    } else {
        utf16(s.drop_last()) + utf16_units(s.last())
    }
}

/// A text as the wide string that the system takes: its UTF-16 encoding and a
/// terminating zero.
pub open spec fn wide(s: Seq<char>) -> Seq<u16> {
    utf16(s).push(0u16)
}

/// Encodes a text as a zero-terminated wide string.
pub fn encode_wide(string: &str) -> (out: Vec<u16>)
    ensures
        out@ == wide(string@),
{
    let mut out: Vec<u16> = Vec::new();
    let mut it = string.chars();
    let ghost mut seen: Seq<char> = Seq::empty();
    loop
        invariant
            it.obeys_prophetic_iter_laws(),
            it.decrease() is Some,
            seen + it.remaining() == string@,
            out@ == utf16(seen),
        ensures
            out@ == utf16(string@),
        decreases it.decrease()->0,
    {
        match it.next() {
            Some(c) => {
                let v: u32 = c as u32;
                proof {
                    vstd::utf8::char_is_scalar(c);
                    assert(seen.push(c).drop_last() == seen);
                }
                if v < 0x10000 {
                    out.push(v as u16);
                } else {
                    let w: u32 = v - 0x10000;
                    out.push((0xD800 + w / 0x400) as u16);
                    out.push((0xDC00 + w % 0x400) as u16);
                    proof {
                        assert(out@ == utf16(seen) + utf16_units(c));
                    }
                }
                proof {
                    seen = seen.push(c);
                }
            },
            None => {
                proof {
                    assert(seen + it.remaining() == seen);
                }
                break;
            },
        }
    }
    out.push(0);
    out
}

/// The three names under which an application's instances meet, as the wide
/// strings that the system takes.
#[derive(Debug)]
pub struct Endpoint {
    pub class_name: Vec<u16>,
    pub window_name: Vec<u16>,
    pub mutex_name: Vec<u16>,
}

impl Endpoint {
    /// These are the names that belong to `identifier`.
    pub open spec fn names(self, identifier: Seq<char>) -> bool {
        &&& self.class_name@ == wide(class_name(identifier))
        &&& self.window_name@ == wide(window_name(identifier))
        &&& self.mutex_name@ == wide(mutex_name(identifier))
    }
}

fn suffixed(identifier: &str, suffix: &str) -> (out: Vec<u16>)
    ensures
        out@ == wide(identifier@ + suffix@),
{
    let mut name = String::from_str(identifier);
    name.append(suffix);
    encode_wide(name.as_str())
}

/// Derives the names under which the instances of the application meet. They
/// depend on the identifier alone.
pub fn init(ctx: &Context) -> (endpoint: Endpoint)
    requires
        ctx@.identifier is Some,
    ensures
        endpoint.names(ctx@.identifier->0),
{
    let id = match ctx.identifier() {
        Some(id) => id.as_str(),
        None => "",
    };
    proof {
        reveal_strlit("-sic");
        reveal_strlit("-siw");
        reveal_strlit("-sim");
        assert("-sic"@ == seq!['-', 's', 'i', 'c']);
        assert("-siw"@ == seq!['-', 's', 'i', 'w']);
        assert("-sim"@ == seq!['-', 's', 'i', 'm']);
    }
    Endpoint {
        class_name: suffixed(id, "-sic"),
        window_name: suffixed(id, "-siw"),
        mutex_name: suffixed(id, "-sim"),
    }
}

/// The role of a process that asked for the mutex, got the handle `mutex`
/// (null if it got none) and then read the error code `last_error`. If the
/// mutex existed, another process is the primary instance. If it was created,
/// this process is. If it could not be created, the process has no role: the
/// failure is reported, since another process may hold the mutex.
pub open spec fn outcome(mutex: isize, last_error: u32) -> Result<Role, Error> {
    if last_error == ERROR_ALREADY_EXISTS {
        Ok(Role::Secondary)
    } else if mutex != 0 {
        Ok(Role::Primary)
    } else {
        Err(Error::Io(IoError::Mutex(last_error)))
    }
}

/// Decides the role of this process from what the creation of the mutex
/// returned, and keeps the mutex if the process is the primary instance.
/// Where the creation failed, the role stays undetermined and nothing
/// changes.
pub fn arbitrate(ctx: &mut Context, mutex: isize, last_error: u32) -> (out: Result<Role, Error>)
    requires
        old(ctx)@.wf(),
        old(ctx)@.identifier is Some,
        old(ctx)@.role == Role::Undetermined,
    ensures
        out == outcome(mutex, last_error),
        out is Ok ==> final(ctx)@ == old(ctx)@.arbitrated(out->Ok_0, mutex),
        out is Err ==> final(ctx)@ == old(ctx)@,
        final(ctx)@.wf(),
{
    if last_error == ERROR_ALREADY_EXISTS {
        ctx.store_role(Role::Secondary, mutex);
        Ok(Role::Secondary)
    } else if mutex != 0 {
        ctx.store_role(Role::Primary, mutex);
        Ok(Role::Primary)
    } else {
        Err(Error::Io(IoError::Mutex(last_error)))
    }
}

/// What a secondary instance sends, having looked for the primary instance's
/// window: the payload on the wire, if the window was found (`window` is not
/// null) and the payload can be sent. One message carries the whole payload,
/// and gives its length in 32 bits: a payload that is longer on the wire
/// cannot be sent.
pub open spec fn handoff_of(window: isize, p: PayloadView) -> Result<Seq<u8>, Error> {
    if window == 0 {
        Err(Error::Io(IoError::NotFound))
    } else if !transmissible(p) || wire_bytes(p).len() > u32::MAX {
        Err(Error::Io(IoError::InvalidInput))
    } else {
        Ok(wire_bytes(p))
    }
}

/// Prepares the handoff of a secondary instance: the data of the message to
/// send to `window`, or the reason why nothing can be sent.
pub fn handoff(window: isize, cwd: &str, args: &Vec<String>) -> (out: Result<Vec<u8>, Error>)
    ensures
        ({
            let expected = handoff_of(window, PayloadView { cwd: cwd@, args: args.deep_view() });
            &&& out is Ok <==> expected is Ok
            &&& out is Ok ==> out->Ok_0@ == expected->Ok_0
            &&& out is Err ==> out->Err_0 == expected->Err_0
        }),
{
    if window == 0 {
        return Err(Error::Io(IoError::NotFound));
    }
    match encode(cwd, args) {
        Ok(data) => if data.len() > u32::MAX as usize {
            Err(Error::Io(IoError::InvalidInput))
        } else {
            Ok(data)
        },
        Err(e) => Err(e),
    }
}

/// Concludes the handoff from the result of sending the message: the exit
/// status of the secondary instance if the primary instance took the message,
/// else the failure to report.
pub fn handed_off(result: isize) -> (out: Result<i32, Error>)
    ensures
        result != 0 ==> out == Ok::<i32, Error>(0),
        result == 0 ==> out == Err::<i32, Error>(Error::Io(IoError::Send)),
{
    if result != 0 {
        Ok(0)
    } else {
        Err(Error::Io(IoError::Send))
    }
}

/// The hidden window to create as the endpoint of the primary instance.
#[derive(Debug)]
pub struct WindowRequest {
    pub class_name: Vec<u16>,
    pub window_name: Vec<u16>,
    /// Where the window stands: its left edge.
    pub x: i32,
    /// Where the window stands: its top edge.
    pub y: i32,
    pub width: i32,
    pub height: i32,
    /// The extended style to create the window with.
    pub ex_style: u32,
    /// The style to create the window with.
    pub style: u32,
    /// The style to give the window once it exists.
    pub shown_style: u32,
}

/// Describes the window that receives the payloads: without extent, never
/// activated, never in the taskbar, transparent to input, and visible to the
/// system only, so that messages reach it.
pub fn create_event_target_window(class_name: Vec<u16>, window_name: Vec<u16>) -> (request:
    WindowRequest)
    ensures
        request.class_name == class_name,
        request.window_name == window_name,
        request.x == 0,
        request.y == 0,
        request.width == 0,
        request.height == 0,
        request.ex_style == WS_EX_NOACTIVATE | WS_EX_TRANSPARENT | WS_EX_LAYERED | WS_EX_TOOLWINDOW,
        request.ex_style == 0x0808_00A0,
        request.style == WS_OVERLAPPED,
        request.shown_style == WS_VISIBLE | WS_POPUP,
        request.shown_style == 0x9000_0000,
{
    assert(0x0800_0000u32 | 0x0000_0020u32 | 0x0008_0000u32 | 0x0000_0080u32 == 0x0808_00A0u32)
        by (bit_vector);
    assert(0x1000_0000u32 | 0x8000_0000u32 == 0x9000_0000u32) by (bit_vector);
    WindowRequest {
        class_name,
        window_name,
        x: 0,
        y: 0,
        width: 0,
        height: 0,
        ex_style: WS_EX_NOACTIVATE | WS_EX_TRANSPARENT | WS_EX_LAYERED | WS_EX_TOOLWINDOW,
        style: WS_OVERLAPPED,
        shown_style: WS_VISIBLE | WS_POPUP,
    }
}

/// Records the window that was created as the endpoint. A null handle means
/// that the creation failed.
pub fn installed(ctx: &mut Context, window: isize) -> (out: Result<(), Error>)
    requires
        old(ctx)@.wf(),
        old(ctx)@.role == Role::Primary,
        old(ctx)@.target_window_handle is None,
    ensures
        window != 0 ==> out is Ok && final(ctx)@ == old(ctx)@.listening(window),
        window == 0 ==> out == Err::<(), Error>(Error::Io(IoError::Endpoint)) && final(ctx)@ == old(
            ctx,
        )@,
        final(ctx)@.wf(),
{
    if window == 0 {
        return Err(Error::Io(IoError::Endpoint));
    }
    ctx.store_target_window(window);
    Ok(())
}

/// What the window procedure of the endpoint does with a message.
#[derive(Clone, Copy, Debug, PartialEq, Eq, Structural)]
pub enum Dispatch {
    /// Read the data of the message and answer 1.
    Receive,
    /// Free the handler and answer 0.
    Release,
    /// Leave the message to the default window procedure.
    Default,
}

impl Dispatch {
    /// What is done with the message `msg`.
    pub open spec fn of(msg: u32) -> Dispatch {
        if msg == WM_COPYDATA {
            Dispatch::Receive
        } else if msg == WM_DESTROY {
            Dispatch::Release
        } else {
            Dispatch::Default
        }
    }

    /// The answer to the message, where this procedure gives it.
    pub fn answer(self) -> (r: Option<isize>)
        ensures
            r == match self {
                Dispatch::Receive => Some(1isize),
                Dispatch::Release => Some(0isize),
                Dispatch::Default => None,
            },
    {
        match self {
            Dispatch::Receive => Some(1),
            Dispatch::Release => Some(0),
            Dispatch::Default => None,
        }
    }
}

/// Decides what the window procedure of the endpoint does with a message.
pub fn single_instance_window_proc(msg: u32) -> (dispatch: Dispatch)
    ensures
        dispatch == Dispatch::of(msg),
{
    if msg == WM_COPYDATA {
        Dispatch::Receive
    } else if msg == WM_DESTROY {
        Dispatch::Release
    } else {
        Dispatch::Default
    }
}

/// What the primary instance makes of the data of a `WM_COPYDATA` message:
/// the payload for the handler, if the message is marked as an invocation
/// payload.
pub open spec fn received(tag: usize, data: Seq<u8>) -> Option<PayloadView> {
    if tag == WMCOPYDATA_SINGLE_INSTANCE_DATA {
        Some(decoded(data))
    } else {
        None
    }
}

/// Reads the data of a `WM_COPYDATA` message: the payload to hand to the
/// handler, once, if the message is marked as an invocation payload; nothing
/// if it is some other message.
pub fn receive(tag: usize, data: &[u8]) -> (payload: Option<Payload>)
    ensures
        payload is Some <==> received(tag, data@) is Some,
        payload is Some ==> payload->0@ == received(tag, data@)->0,
{
    if tag == WMCOPYDATA_SINGLE_INSTANCE_DATA {
        Some(decode(data))
    } else {
        None
    }
}

/// Whatever a secondary instance hands off, the primary instance receives:
/// the data of every handoff that is made is read as the payload that the
/// secondary instance supplied, its arguments and its working directory.
pub proof fn what_is_handed_off_is_received(window: isize, p: PayloadView)
    requires
        handoff_of(window, p) is Ok,
    ensures
        received(WMCOPYDATA_SINGLE_INSTANCE_DATA, handoff_of(window, p)->Ok_0) == Some(p),
{
    round_trip(p, Seq::empty());
}

/// Of the processes that ask for the mutex of one application, the system
/// lets exactly one create it: that one gets a handle and finds the mutex
/// new. It becomes the primary instance. Every other finds the mutex there
/// and becomes a secondary one, or gets no handle and has its failure
/// reported: there is never no primary instance, and never a second.
pub proof fn exactly_one_primary(attempts: Seq<(isize, u32)>, first: int)
    requires
        0 <= first < attempts.len(),
        attempts[first].0 != 0,
        attempts[first].1 != ERROR_ALREADY_EXISTS,
        forall|i: int|
            0 <= i < attempts.len() && i != first ==> (#[trigger] attempts[i]).1
                == ERROR_ALREADY_EXISTS || attempts[i].0 == 0,
    ensures
        forall|i: int|
            0 <= i < attempts.len() ==> (outcome(
                (#[trigger] attempts[i]).0,
                attempts[i].1,
            ) == Ok::<Role, Error>(Role::Primary) <==> i == first),
        forall|i: int|
            0 <= i < attempts.len() && i != first ==> (outcome(
                (#[trigger] attempts[i]).0,
                attempts[i].1,
            ) == if attempts[i].1 == ERROR_ALREADY_EXISTS {
                Ok::<Role, Error>(Role::Secondary)
            } else {
                Err::<Role, Error>(Error::Io(IoError::Mutex(attempts[i].1)))
            }),
{
}

/// A creation of the mutex that gave no handle never makes a primary
/// instance.
pub proof fn a_failed_creation_is_no_primary(last_error: u32)
    ensures
        outcome(0, last_error) != Ok::<Role, Error>(Role::Primary),
{
}

/// Every character has one or two code units, and only NUL has a zero among
/// them.
proof fn units_of_char(c: char)
    ensures
        1 <= utf16_units(c).len() <= 2,
        c != '\0' ==> forall|i: int| 0 <= i < utf16_units(c).len() ==> utf16_units(c)[i] != 0,
        utf16_units(c).len() == 1 ==> utf16_units(c)[0] == c as u32 && !(0xD800 <= utf16_units(
            c,
        )[0] <= 0xDFFF),
        utf16_units(c).len() == 2 ==> 0xD800 <= utf16_units(c)[0] <= 0xDBFF && 0xDC00
            <= utf16_units(c)[1] <= 0xDFFF && c as u32 == 0x10000 + (utf16_units(c)[0] - 0xD800)
            * 0x400 + (utf16_units(c)[1] - 0xDC00),
{
    vstd::utf8::char_is_scalar(c);
    let v = c as u32;
    if v == 0 {
        vstd::utf8::char_u32_cast(c, 0u32);
        vstd::utf8::char_u32_cast('\0', 0u32);
    }
}

/// The encoding of a text without NUL holds no zero.
pub proof fn utf16_without_zero(s: Seq<char>)
    requires
        !s.contains('\0'),
    ensures
        !utf16(s).contains(0u16),
    decreases s.len(),
{
    if s.len() > 0 {
        let head = s.drop_last();
        assert forall|j: int| 0 <= j < head.len() implies head[j] != '\0' by {
            assert(s[j] == head[j]);
        }
        utf16_without_zero(head);
        units_of_char(s.last());
        let all = utf16(s);
        let n = utf16(head).len();
        assert forall|j: int| 0 <= j < all.len() implies all[j] != 0u16 by {
            if j < n {
                assert(all[j] == utf16(head)[j]);
            } else {
                assert(all[j] == utf16_units(s.last())[j - n]);
            }
        }
    }
}

/// Texts with the same encoding are the same text.
pub proof fn utf16_is_injective(a: Seq<char>, b: Seq<char>)
    requires
        utf16(a) == utf16(b),
    ensures
        a == b,
    decreases a.len() + b.len(),
{
    if a.len() == 0 || b.len() == 0 {
        if a.len() > 0 {
            units_of_char(a.last());
        }
        if b.len() > 0 {
            units_of_char(b.last());
        }
        assert(utf16(a).len() == 0 && utf16(b).len() == 0);
        assert(a =~= b);
    } else {
        let ua = utf16_units(a.last());
        let ub = utf16_units(b.last());
        let pa = utf16(a.drop_last());
        let pb = utf16(b.drop_last());
        let all = utf16(a);
        units_of_char(a.last());
        units_of_char(b.last());
        assert(all == pa + ua);
        assert(all == pb + ub);
        assert(all.last() == ua.last());
        assert(all.last() == ub.last());
        assert(ua.len() == ub.len());
        if ua.len() == 2 {
            assert(all[all.len() - 2] == ua[0]);
            assert(all[all.len() - 2] == ub[0]);
        }
        assert(a.last() as u32 == b.last() as u32);
        vstd::utf8::char_u32_cast(a.last(), a.last() as u32);
        vstd::utf8::char_u32_cast(b.last(), a.last() as u32);
        assert(pa =~= all.take(all.len() - ua.len()));
        assert(pb =~= all.take(all.len() - ub.len()));
        utf16_is_injective(a.drop_last(), b.drop_last());
        assert(a =~= a.drop_last().push(a.last()));
        assert(b =~= b.drop_last().push(b.last()));
    }
}

/// Where the system, which reads a wide string up to its first zero, stops
/// reading `units`.
pub open spec fn wide_len(units: Seq<u16>) -> int
    decreases units.len(),
{
    if units.len() == 0 || units[0] == 0 {
        0
    } else {
        1 + wide_len(units.drop_first())
    }
}

/// A sequence that holds no zero, and then a zero: the system reads all that
/// stands before the zero.
proof fn wide_len_of_terminated(body: Seq<u16>)
    requires
        !body.contains(0u16),
    ensures
        wide_len(body.push(0u16)) == body.len(),
    decreases body.len(),
{
    let all = body.push(0u16);
    if body.len() > 0 {
        let tail = body.drop_first();
        assert forall|j: int| 0 <= j < tail.len() implies tail[j] != 0u16 by {
            assert(body[j + 1] == tail[j]);
        }
        wide_len_of_terminated(tail);
        assert(all.drop_first() == tail.push(0u16));
    }
}

/// Applications with different identifiers never meet: the system reads each
/// of the names of a valid identifier in full, and the names of one valid
/// identifier differ from those of another.
pub proof fn different_identifiers_never_meet(a: Seq<char>, b: Seq<char>)
    requires
        a != b,
        valid_identifier(a),
        valid_identifier(b),
    ensures
        wide_len(wide(class_name(a))) == wide(class_name(a)).len() - 1,
        wide_len(wide(window_name(a))) == wide(window_name(a)).len() - 1,
        wide_len(wide(mutex_name(a))) == wide(mutex_name(a)).len() - 1,
        wide(class_name(a)) != wide(class_name(b)),
        wide(window_name(a)) != wide(window_name(b)),
        wide(mutex_name(a)) != wide(mutex_name(b)),
{
    names_are_distinct(a, b);
    let c = seq!['-', 's', 'i', 'c'];
    let w = seq!['-', 's', 'i', 'w'];
    let m = seq!['-', 's', 'i', 'm'];
    assert forall|suffix: Seq<char>| suffix == c || suffix == w || suffix == m implies !(a
        + suffix).contains('\0') by {
        let name = a + suffix;
        assert forall|j: int| 0 <= j < name.len() implies name[j] != '\0' by {
            if j < a.len() {
                assert(name[j] == a[j]);
            } else {
                assert(name[j] == suffix[j - a.len()]);
            }
        }
    }
    utf16_without_zero(a + c);
    utf16_without_zero(a + w);
    utf16_without_zero(a + m);
    wide_len_of_terminated(utf16(a + c));
    wide_len_of_terminated(utf16(a + w));
    wide_len_of_terminated(utf16(a + m));
    if wide(class_name(a)) == wide(class_name(b)) {
        assert(utf16(a + c) == wide(a + c).drop_last());
        assert(utf16(b + c) == wide(b + c).drop_last());
        utf16_is_injective(a + c, b + c);
    }
    if wide(window_name(a)) == wide(window_name(b)) {
        assert(utf16(a + w) == wide(a + w).drop_last());
        assert(utf16(b + w) == wide(b + w).drop_last());
        utf16_is_injective(a + w, b + w);
    }
    if wide(mutex_name(a)) == wide(mutex_name(b)) {
        assert(utf16(a + m) == wide(a + m).drop_last());
        assert(utf16(b + m) == wide(b + m).drop_last());
        utf16_is_injective(a + m, b + m);
    }
}

/// The names of one application differ from each other, and no name of one
/// application is a name of another.
pub proof fn names_are_distinct(a: Seq<char>, b: Seq<char>)
    ensures
        class_name(a) != window_name(b),
        class_name(a) != mutex_name(b),
        window_name(a) != mutex_name(b),
        a != b ==> class_name(a) != class_name(b),
        a != b ==> window_name(a) != window_name(b),
        a != b ==> mutex_name(a) != mutex_name(b),
{
    let c = seq!['-', 's', 'i', 'c'];
    let w = seq!['-', 's', 'i', 'w'];
    let m = seq!['-', 's', 'i', 'm'];
    assert((a + c).last() == 'c');
    assert((a + w).last() == 'w');
    assert((b + w).last() == 'w');
    assert((b + m).last() == 'm');
    assert((a + c).take(a.len() as int) == a);
    assert((b + c).take(b.len() as int) == b);
    assert((a + w).take(a.len() as int) == a);
    assert((b + w).take(b.len() as int) == b);
    assert((a + m).take(a.len() as int) == a);
    assert((b + m).take(b.len() as int) == b);
}

} // verus!
