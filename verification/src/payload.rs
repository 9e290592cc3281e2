//! The invocation payload that a secondary instance hands to the primary one,
//! and its form on the wire.
//!
//! On the wire a payload is one line of text in UTF-8: the working directory,
//! then each argument, with `|` before every argument, and a NUL at the end.
//! A payload without arguments is the working directory and the NUL. Nothing
//! is escaped. A field that holds `|` or NUL would come out as other fields,
//! so a payload with such a field is refused by [`encode`] and never sent.
use vstd::prelude::*;
use vstd::slice::slice_subrange;
use vstd::string::StrSliceExecFns;
use vstd::string::StringExecFns;
use vstd::utf8::char_is_scalar;
use vstd::utf8::char_u32_cast;
use vstd::utf8::decode_utf8;
use vstd::utf8::encode_scalar;
use vstd::utf8::encode_utf8;
use vstd::utf8::encode_utf8_decode_utf8;
use vstd::utf8::encode_utf8_valid_utf8;
use vstd::utf8::valid_utf8;
use crate::error::Error;
use crate::error::IoError;
use crate::text::contains_char;
use crate::text::fields;
use crate::text::fields_are_free;
use crate::text::fields_of_join;
use crate::text::free_of;
use crate::text::joined;
use crate::text::split;

verus! {

/// Stands between the fields of a payload on the wire.
pub const SEPARATOR: char = '|';

/// Ends a payload on the wire.
pub const TERMINATOR: char = '\0';

/// What one launch of the application was asked to do: its argument list and
/// the directory it was started in.
#[derive(Clone, Debug, PartialEq, Eq)]
pub struct Payload {
    pub cwd: String,
    pub args: Vec<String>,
}

/// A payload as a mathematical value.
pub struct PayloadView {
    pub cwd: Seq<char>,
    pub args: Seq<Seq<char>>,
}

impl View for Payload {
    type V = PayloadView;

    open spec fn view(&self) -> PayloadView {
        PayloadView { cwd: self.cwd@, args: self.args.deep_view() }
    }
}

/// The field can stand on the wire as it is.
pub open spec fn plain(field: Seq<char>) -> bool {
    !field.contains(SEPARATOR) && !field.contains(TERMINATOR)
}

/// The payload comes out of the wire format as it went in: no field holds the
/// separator or the terminator.
pub open spec fn transmissible(p: PayloadView) -> bool {
    &&& plain(p.cwd)
    &&& forall|i: int| 0 <= i < p.args.len() ==> plain(#[trigger] p.args[i])
}

/// The fields of a payload on the wire: the working directory, then the
/// arguments.
pub open spec fn wire_fields(p: PayloadView) -> Seq<Seq<char>> {
    seq![p.cwd] + p.args
}

/// The text of a payload on the wire: its fields with the separator between
/// neighbours, then the terminator.
pub open spec fn wire_text(p: PayloadView) -> Seq<char> {
    joined(wire_fields(p), seq![SEPARATOR]) + seq![TERMINATOR]
}

/// The bytes of a payload on the wire.
pub open spec fn wire_bytes(p: PayloadView) -> Seq<u8> {
    encode_utf8(wire_text(p))
}

/// How many bytes stand before the first zero byte; all of them if there is none.
pub open spec fn text_len(bytes: Seq<u8>) -> int
    decreases bytes.len(),
{
    if bytes.len() == 0 || bytes[0] == 0 {
        0
    } else {
        1 + text_len(bytes.drop_first())
    }
}

/// What `String::from_utf8_lossy` makes of bytes that are not valid UTF-8.
pub uninterp spec fn lossy_text(bytes: Seq<u8>) -> Seq<char>;

/// The text that the bytes stand for: their decoding where they are valid
/// UTF-8, else the lossy reading of them.
pub open spec fn text_of(bytes: Seq<u8>) -> Seq<char> {
    if valid_utf8(bytes) {
        decode_utf8(bytes)
    } else {
        lossy_text(bytes)
    }
}

/// The payload that the text of a message stands for: its first field is the
/// working directory, the others are the arguments.
pub open spec fn parsed(text: Seq<char>) -> PayloadView {
    let all = fields(text, SEPARATOR);
    PayloadView { cwd: all[0], args: all.skip(1) }
}

/// The payload that a received message stands for. The message ends at its
/// first zero byte, or where the data ends.
pub open spec fn decoded(data: Seq<u8>) -> PayloadView {
    parsed(text_of(data.take(text_len(data))))
}

/// `String::from_utf8_lossy` of std: valid UTF-8 is decoded as it stands; in
/// other input every invalid sequence is replaced, and the outcome depends on
/// the bytes alone.
#[verifier::external_body]
fn from_utf8_lossy(bytes: &[u8]) -> (text: String)
    ensures
        valid_utf8(bytes@) ==> text@ == decode_utf8(bytes@),
        !valid_utf8(bytes@) ==> text@ == lossy_text(bytes@),
{
    String::from_utf8_lossy(bytes).into_owned()
}

/// Whether the field can stand on the wire as it is.
pub fn is_plain(field: &str) -> (ok: bool)
    ensures
        ok == plain(field@),
{
    !contains_char(field, SEPARATOR) && !contains_char(field, TERMINATOR)
}

/// Whether the payload comes out of the wire format as it went in.
pub fn is_transmissible(cwd: &str, args: &Vec<String>) -> (ok: bool)
    ensures
        ok == transmissible(PayloadView { cwd: cwd@, args: args.deep_view() }),
{
    if !is_plain(cwd) {
        return false;
    }
    let mut i: usize = 0;
    while i < args.len()
        invariant
            i <= args.len(),
            forall|j: int| 0 <= j < i ==> plain(#[trigger] args.deep_view()[j]),
        decreases args.len() - i,
    {
        if !is_plain(args[i].as_str()) {
            proof {
                let p = PayloadView { cwd: cwd@, args: args.deep_view() };
                assert(p.args[i as int] == args[i as int]@);
                assert(!plain(p.args[i as int]));
            }
            return false;
        }
        i += 1;
    }
    true
}

/// Puts a payload into its form on the wire. A payload that would not come
/// out as it went in is refused.
pub fn encode(cwd: &str, args: &Vec<String>) -> (out: Result<Vec<u8>, Error>)
    ensures
        ({
            let p = PayloadView { cwd: cwd@, args: args.deep_view() };
            match out {
                Ok(bytes) => transmissible(p) && bytes@ == wire_bytes(p),
                Err(e) => !transmissible(p) && e == Error::Io(IoError::InvalidInput),
            }
        }),
{
    if !is_transmissible(cwd, args) {
        return Err(Error::Io(IoError::InvalidInput));
    }
    let ghost sep = seq![SEPARATOR];
    let mut text = String::from_str(cwd);
    let mut i: usize = 0;
    assert(seq![cwd@] + args.deep_view().take(0) == seq![cwd@]);
    while i < args.len()
        invariant
            i <= args.len(),
            sep == seq![SEPARATOR],
            text@ == joined(seq![cwd@] + args.deep_view().take(i as int), sep),
        decreases args.len() - i,
    {
        let ghost before = seq![cwd@] + args.deep_view().take(i as int);
        let ghost start = text@;
        text.push(SEPARATOR);
        text.append(args[i].as_str());
        proof {
            let after = seq![cwd@] + args.deep_view().take(i + 1);
            assert(after.drop_last() == before);
            assert(after.last() == args[i as int]@);
            assert(start.push(SEPARATOR) + args[i as int]@ == start + sep + args[i as int]@);
        }
        i += 1;
    }
    text.push(TERMINATOR);
    proof {
        let p = PayloadView { cwd: cwd@, args: args.deep_view() };
        assert(args.deep_view().take(args.len() as int) == args.deep_view());
        assert(text@ == wire_text(p));
    }
    Ok(text.as_str().as_bytes_vec())
}

/// Where the text of a message ends: at its first zero byte, or at the end of
/// the data.
pub fn text_end(data: &[u8]) -> (end: usize)
    ensures
        end == text_len(data@),
        end <= data@.len(),
{
    let mut i: usize = 0;
    assert(data@.skip(0) == data@);
    while i < data.len() && data[i] != 0
        invariant
            i <= data@.len(),
            text_len(data@) == i + text_len(data@.skip(i as int)),
        decreases data@.len() - i,
    {
        proof {
            let rest = data@.skip(i as int);
            assert(rest.drop_first() == data@.skip(i + 1));
        }
        i += 1;
    }
    proof {
        let rest = data@.skip(i as int);
        if i < data@.len() {
            assert(rest[0] == data@[i as int]);
        }
    }
    i
}

/// Reads the payload out of the text of a message.
pub fn parse(text: &str) -> (p: Payload)
    ensures
        p@ == parsed(text@),
{
    let mut all = split(text, SEPARATOR);
    proof {
        fields_are_free(text@, SEPARATOR);
    }
    let ghost before = all.deep_view();
    let cwd = all.remove(0);
    proof {
        assert(all.deep_view() =~= before.skip(1));
    }
    Payload { cwd, args: all }
}

/// Reads the payload out of a received message. Any bytes are read: where they
/// are not valid UTF-8, what cannot be read is replaced.
pub fn decode(data: &[u8]) -> (p: Payload)
    ensures
        p@ == decoded(data@),
{
    let end = text_end(data);
    let text = from_utf8_lossy(slice_subrange(data, 0, end));
    parse(text.as_str())
}

/// The encoding of a text in two pieces is the two encodings, one after the other.
proof fn encoding_of_concat(a: Seq<char>, b: Seq<char>)
    ensures
        encode_utf8(a + b) == encode_utf8(a) + encode_utf8(b),
    decreases a.len(),
{
    if a.len() == 0 {
        assert(encode_utf8(a) + encode_utf8(b) == encode_utf8(b));
    } else {
        encoding_of_concat(a.drop_first(), b);
        assert((a + b).drop_first() == a.drop_first() + b);
        assert(encode_scalar(a[0] as u32) + (encode_utf8(a.drop_first()) + encode_utf8(b))
            == (encode_scalar(a[0] as u32) + encode_utf8(a.drop_first())) + encode_utf8(b));
    }
}

/// Only the character NUL has a zero byte in its encoding.
proof fn scalar_bytes_nonzero(v: u32)
    by (bit_vector)
    requires
        v != 0,
        v <= 0x10FFFF,
    ensures
        (v & 0x7F) as u8 != 0 || v > 0x7F,
        0xC0u8 | ((v >> 6) & 0x1F) as u8 != 0,
        0xE0u8 | ((v >> 12) & 0x0F) as u8 != 0,
        0xF0u8 | ((v >> 18) & 0x7) as u8 != 0,
        0x80u8 | (v & 0x3F) as u8 != 0,
        0x80u8 | ((v >> 6) & 0x3F) as u8 != 0,
        0x80u8 | ((v >> 12) & 0x3F) as u8 != 0,
{
}

/// A text without NUL has no zero byte in its encoding.
proof fn encoding_without_zero(a: Seq<char>)
    requires
        !a.contains(TERMINATOR),
    ensures
        !encode_utf8(a).contains(0u8),
    decreases a.len(),
{
    if a.len() > 0 {
        let rest = a.drop_first();
        assert forall|j: int| 0 <= j < rest.len() implies rest[j] != TERMINATOR by {
            assert(a[j + 1] == rest[j]);
        }
        encoding_without_zero(rest);
        let v = a[0] as u32;
        char_is_scalar(a[0]);
        assert(v != 0) by {
            if v == 0 {
                char_u32_cast(a[0], 0u32);
                char_u32_cast(TERMINATOR, 0u32);
            }
        }
        scalar_bytes_nonzero(v);
        let head = encode_scalar(v);
        assert forall|j: int| 0 <= j < head.len() implies head[j] != 0u8 by {}
        let all = encode_utf8(a);
        assert forall|j: int| 0 <= j < all.len() implies all[j] != 0u8 by {
            if j >= head.len() {
                assert(all[j] == encode_utf8(rest)[j - head.len()]);
            }
        }
    }
}

/// A message whose first zero byte follows `body` has `body` as its text.
proof fn text_len_of_terminated(body: Seq<u8>, rest: Seq<u8>)
    requires
        !body.contains(0u8),
    ensures
        text_len(body + seq![0u8] + rest) == body.len(),
    decreases body.len(),
{
    let all = body + seq![0u8] + rest;
    if body.len() == 0 {
        assert(all[0] == 0u8);
    } else {
        let tail = body.drop_first();
        assert forall|j: int| 0 <= j < tail.len() implies tail[j] != 0u8 by {
            assert(body[j + 1] == tail[j]);
        }
        text_len_of_terminated(tail, rest);
        assert(all.drop_first() == tail + seq![0u8] + rest);
    }
}

/// What is sent is what is received: the bytes that a transmissible payload is
/// encoded to are decoded to that payload, with its arguments or without any,
/// whatever follows the terminator.
pub proof fn round_trip(p: PayloadView, rest: Seq<u8>)
    requires
        transmissible(p),
    ensures
        decoded(wire_bytes(p)) == p,
        decoded(wire_bytes(p) + rest) == p,
{
    let all = wire_fields(p);
    let body = joined(all, seq![SEPARATOR]);
    assert(free_of(all, SEPARATOR)) by {
        assert forall|i: int| 0 <= i < all.len() implies !(#[trigger] all[i]).contains(
            SEPARATOR,
        ) by {
            if i > 0 {
                assert(plain(p.args[i - 1]));
            }
        }
    }
    fields_of_join(all, SEPARATOR);
    assert(parsed(body) == p) by {
        assert(all.skip(1) == p.args);
    }
    assert(!body.contains(TERMINATOR)) by {
        assert(free_of(all, TERMINATOR)) by {
            assert forall|i: int| 0 <= i < all.len() implies !(#[trigger] all[i]).contains(
                TERMINATOR,
            ) by {
                if i > 0 {
                    assert(plain(p.args[i - 1]));
                }
            }
        }
        join_free_of(all, SEPARATOR, TERMINATOR);
    }
    let bytes = encode_utf8(body);
    encoding_of_concat(body, seq![TERMINATOR]);
    assert(encode_utf8(seq![TERMINATOR]) == seq![0u8]) by {
        let one = seq![TERMINATOR];
        assert(encode_utf8(one.drop_first()) == Seq::<u8>::empty());
        assert((0u32 & 0x7F) as u8 == 0u8) by (bit_vector);
    }
    encoding_without_zero(body);
    encode_utf8_valid_utf8(body);
    encode_utf8_decode_utf8(body);
    text_len_of_terminated(bytes, Seq::empty());
    text_len_of_terminated(bytes, rest);
    assert(wire_bytes(p).take(bytes.len() as int) == bytes);
    assert((wire_bytes(p) + rest).take(bytes.len() as int) == bytes);
}

/// Text joined from parts that hold no `c`, with a separator other than `c`,
/// holds no `c`.
proof fn join_free_of(parts: Seq<Seq<char>>, sep: char, c: char)
    requires
        free_of(parts, c),
        sep != c,
    ensures
        !joined(parts, seq![sep]).contains(c),
    decreases parts.len(),
{
    if parts.len() == 1 {
        assert(!parts[0].contains(c));
    } else if parts.len() > 1 {
        let head = parts.drop_last();
        assert forall|i: int| 0 <= i < head.len() implies !(#[trigger] head[i]).contains(c) by {
            assert(head[i] == parts[i]);
        }
        join_free_of(head, sep, c);
        let a = joined(head, seq![sep]);
        let all = a + seq![sep] + parts.last();
        assert(!parts.last().contains(c)) by {
            assert(parts.last() == parts[parts.len() - 1]);
        }
        assert forall|j: int| 0 <= j < all.len() implies all[j] != c by {
            if j < a.len() {
                assert(a[j] == all[j]);
            } else if j > a.len() {
                assert(parts.last()[j - a.len() - 1] == all[j]);
            }
        }
    }
}

} // verus!
