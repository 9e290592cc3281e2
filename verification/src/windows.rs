//! Deep links on Windows: the record in the user's registry that routes a URL
//! scheme to this executable, and the operations of the library in terms of
//! the single-instance protocol.
use vstd::prelude::*;
use vstd::string::StringExecFns;
use crate::context::valid_identifier;
use crate::context::Context;
use crate::context::ContextView;
use crate::context::Role;
use crate::error::Error;
use crate::error::IoError;
use crate::text::join;
use crate::text::joined;
use crate::windows_single::create_event_target_window;
use crate::windows_single::init;
use crate::windows_single::wide;
use crate::windows_single::WindowRequest;
use crate::windows_single::WS_EX_LAYERED;
use crate::windows_single::WS_EX_NOACTIVATE;
use crate::windows_single::WS_EX_TOOLWINDOW;
use crate::windows_single::WS_EX_TRANSPARENT;
use crate::windows_single::WS_OVERLAPPED;
use crate::windows_single::WS_POPUP;
use crate::windows_single::WS_VISIBLE;

verus! {

/// The error code of a removal whose target does not exist.
pub const ERROR_FILE_NOT_FOUND: i32 = 2;

/// One string value to set in the user's registry: the path of its key, the
/// name of the value (empty for the key's default value) and the data.
#[derive(Clone, Debug, PartialEq, Eq)]
pub struct Entry {
    pub key: String,
    pub name: String,
    pub value: String,
}

/// An entry as a mathematical value.
pub struct EntryView {
    pub key: Seq<char>,
    pub name: Seq<char>,
    pub value: Seq<char>,
}

impl DeepView for Entry {
    type V = EntryView;

    open spec fn deep_view(&self) -> EntryView {
        EntryView { key: self.key@, name: self.name@, value: self.value@ }
    }
}

/// The key under which a scheme is registered; everything that belongs to the
/// scheme lies at or below it.
pub open spec fn scheme_key(scheme: Seq<char>) -> Seq<char> {
    "Software\\Classes\\"@ + scheme
}

/// The record that routes `scheme` to the executable `exe` for the
/// application `identifier`: the protocol declaration, the icon, and the
/// command that opens a link, in the order in which they are written.
pub open spec fn record(scheme: Seq<char>, identifier: Seq<char>, exe: Seq<char>) -> Seq<
    EntryView,
> {
    let key = scheme_key(scheme);
    seq![
        EntryView { key, name: Seq::empty(), value: "URL:"@ + identifier + " protocol"@ },
        EntryView { key, name: "URL Protocol"@, value: Seq::empty() },
        EntryView { key: key + "\\DefaultIcon"@, name: Seq::empty(), value: exe + ",0"@ },
        EntryView {
            key: key + "\\shell\\open\\command"@,
            name: Seq::empty(),
            value: "\""@ + exe + "\" \"%1\""@,
        },
    ]
}

/// `out` is `path` in the form that programs without support for verbatim
/// paths take: `path` itself, or `path` without the prefix `\\?\`.
pub open spec fn simplification(path: Seq<char>, out: Seq<char>) -> bool {
    ||| out == path
    ||| path.len() >= 4 && path.take(4) == seq!['\\', '\\', '?', '\\'] && out == path.skip(4)
}

/// `dunce::simplified`: hands the path back as it is, or, where that names the
/// same file, without its verbatim prefix. Which of the two depends on the
/// platform and on the whole path, so only the two outcomes are stated.
#[verifier::external_body]
fn simplified(path: &str) -> (out: String)
    ensures
        simplification(path@, out@),
{
    dunce::simplified(std::path::Path::new(path)).display().to_string()
}

fn concat(a: &str, b: &str) -> (out: String)
    ensures
        out@ == a@ + b@,
{
    let mut out = String::from_str(a);
    out.append(b);
    out
}

fn concat3(a: &str, b: &str, c: &str) -> (out: String)
    ensures
        out@ == a@ + b@ + c@,
{
    let mut out = concat(a, b);
    out.append(c);
    out
}

/// The key under which `scheme` is registered.
pub fn key_of(scheme: &str) -> (key: String)
    ensures
        key@ == scheme_key(scheme@),
{
    concat("Software\\Classes\\", scheme)
}

/// The record that routes `scheme` to the executable at `exe`.
pub fn entries(scheme: &str, identifier: &str, exe: &str) -> (out: Vec<Entry>)
    ensures
        out.deep_view() == record(scheme@, identifier@, exe@),
{
    let key = key_of(scheme);
    let mut out: Vec<Entry> = Vec::new();
    out.push(
        Entry {
            key: key.clone(),
            name: String::new(),
            value: concat3("URL:", identifier, " protocol"),
        },
    );
    out.push(Entry { key: key.clone(), name: String::from_str("URL Protocol"), value: String::new() });
    out.push(
        Entry {
            key: concat(key.as_str(), "\\DefaultIcon"),
            name: String::new(),
            value: concat(exe, ",0"),
        },
    );
    out.push(
        Entry {
            key: concat(key.as_str(), "\\shell\\open\\command"),
            name: String::new(),
            value: concat3("\"", exe, "\" \"%1\""),
        },
    );
    out
}

/// `plan` registers `scheme` for the executable whose canonical path reads
/// `exe`. Where `exe` is the path itself (`unicode`), the record holds the
/// path in its simplest form. Where the path is not Unicode and `exe` only
/// renders it, the record holds `exe` as it is.
pub open spec fn registers(
    plan: Seq<EntryView>,
    scheme: Seq<char>,
    identifier: Seq<char>,
    exe: Seq<char>,
    unicode: bool,
) -> bool {
    if unicode {
        exists|path: Seq<char>|
            simplification(exe, path) && plan == record(scheme, identifier, path)
    } else {
        plan == record(scheme, identifier, exe)
    }
}

/// What there is to write to register `scheme` for this executable, whose
/// canonical path reads `exe`. The path is put into its simplest form first,
/// unless it is not Unicode (`unicode` is false) and `exe` only renders it:
/// such a path is left as it is.
pub fn register(ctx: &Context, scheme: &str, exe: &str, unicode: bool) -> (out: Vec<Entry>)
    requires
        ctx@.identifier is Some,
    ensures
        registers(out.deep_view(), scheme@, ctx@.identifier->0, exe@, unicode),
{
    let id = match ctx.identifier() {
        Some(id) => id.as_str(),
        None => "",
    };
    if unicode {
        let path = simplified(exe);
        entries(scheme, id, path.as_str())
    } else {
        entries(scheme, id, exe)
    }
}

/// What a registration returns, given what the write to the registry
/// returned, a failure by its error code: every failure is reported.
pub fn registered(result: Result<(), i32>) -> (out: Result<(), Error>)
    ensures
        out == match result {
            Ok(()) => Ok::<(), Error>(()),
            Err(code) => Err::<(), Error>(Error::Io(IoError::Os(code))),
        },
{
    match result {
        Ok(()) => Ok(()),
        Err(code) => Err(Error::Io(IoError::Os(code))),
    }
}

/// The key whose whole tree is removed to unregister `scheme`.
pub fn unregister(scheme: &str) -> (key: String)
    ensures
        key@ == scheme_key(scheme@),
{
    key_of(scheme)
}

/// What the removal of a registration returns, given what the removal of the
/// tree returned, a failure by its error code: that there was nothing to
/// remove is no failure; every other failure is reported.
pub fn unregistered(result: Result<(), i32>) -> (out: Result<(), Error>)
    ensures
        out == match result {
            Ok(()) => Ok::<(), Error>(()),
            Err(code) => if code == ERROR_FILE_NOT_FOUND {
                Ok::<(), Error>(())
            } else {
                Err::<(), Error>(Error::Io(IoError::Os(code)))
            },
        },
{
    match result {
        Ok(()) => Ok(()),
        Err(code) => if code == ERROR_FILE_NOT_FOUND {
            Ok(())
        } else {
            Err(Error::Io(IoError::Os(code)))
        },
    }
}

/// Sets the identifier of a process that has none. The identifier holds no
/// NUL.
pub fn prepare(ctx: &mut Context, identifier: &str)
    requires
        old(ctx)@.identifier is None,
        valid_identifier(identifier@),
    ensures
        final(ctx)@ == (ContextView { identifier: Some(identifier@), ..old(ctx)@ }),
        old(ctx)@.wf() ==> final(ctx)@.wf(),
{
    let _ = ctx.store_identifier(identifier);
}

/// The window that the primary instance creates to listen for payloads.
pub fn listen(ctx: &Context) -> (request: WindowRequest)
    requires
        ctx@.wf(),
        ctx@.role == Role::Primary,
        ctx@.target_window_handle is None,
    ensures
        request.class_name@ == wide(crate::windows_single::class_name(ctx@.identifier->0)),
        request.window_name@ == wide(crate::windows_single::window_name(ctx@.identifier->0)),
        request.x == 0,
        request.y == 0,
        request.width == 0,
        request.height == 0,
        request.ex_style == WS_EX_NOACTIVATE | WS_EX_TRANSPARENT | WS_EX_LAYERED | WS_EX_TOOLWINDOW,
        request.style == WS_OVERLAPPED,
        request.shown_style == WS_VISIBLE | WS_POPUP,
{
    let endpoint = init(ctx);
    create_event_target_window(endpoint.class_name, endpoint.window_name)
}

/// The link that a handler of links receives for a payload: the arguments,
/// with a space between neighbours.
pub fn link(args: &Vec<String>) -> (url: String)
    ensures
        url@ == joined(args.deep_view(), seq![' ']),
{
    proof {
        reveal_strlit(" ");
        assert(" "@ == seq![' ']);
    }
    join(args, " ")
}

/// `key` lies in the tree of `root`: it is `root` or a key below it.
pub open spec fn within(key: Seq<char>, root: Seq<char>) -> bool {
    ||| key == root
    ||| key.len() > root.len() && key.take(root.len() as int) == root && key[root.len() as int]
        == '\\'
}

/// The registry after the entries were written, in order: each write sets one
/// value and leaves the others as they were.
pub open spec fn written(
    store: Map<(Seq<char>, Seq<char>), Seq<char>>,
    plan: Seq<EntryView>,
) -> Map<(Seq<char>, Seq<char>), Seq<char>>
    decreases plan.len(),
{
    if plan.len() == 0 {
        store
    } else {
        written(store, plan.drop_last()).insert(
            (plan.last().key, plan.last().name),
            plan.last().value,
        )
    }
}

/// The registry after the tree of `root` was removed: what lies within it is
/// gone, and the rest is as it was.
pub open spec fn removed(
    store: Map<(Seq<char>, Seq<char>), Seq<char>>,
    root: Seq<char>,
) -> Map<(Seq<char>, Seq<char>), Seq<char>> {
    Map::new(
        |k: (Seq<char>, Seq<char>)| store.dom().contains(k) && !within(k.0, root),
        |k: (Seq<char>, Seq<char>)| store[k],
    )
}

/// A registration writes only within the tree that its removal erases.
pub proof fn record_lies_within(scheme: Seq<char>, identifier: Seq<char>, exe: Seq<char>)
    ensures
        forall|i: int|
            0 <= i < record(scheme, identifier, exe).len() ==> within(
                (#[trigger] record(scheme, identifier, exe)[i]).key,
                scheme_key(scheme),
            ),
{
    let key = scheme_key(scheme);
    reveal_strlit("\\DefaultIcon");
    reveal_strlit("\\shell\\open\\command");
    let icon = key + "\\DefaultIcon"@;
    let command = key + "\\shell\\open\\command"@;
    assert(icon.take(key.len() as int) == key);
    assert(command.take(key.len() as int) == key);
}

/// Writes within a tree do not show once the tree is removed.
proof fn removal_hides_writes(
    store: Map<(Seq<char>, Seq<char>), Seq<char>>,
    plan: Seq<EntryView>,
    root: Seq<char>,
)
    requires
        forall|i: int| 0 <= i < plan.len() ==> within((#[trigger] plan[i]).key, root),
    ensures
        removed(written(store, plan), root) == removed(store, root),
    decreases plan.len(),
{
    if plan.len() > 0 {
        let head = plan.drop_last();
        assert forall|i: int| 0 <= i < head.len() implies within((#[trigger] head[i]).key, root) by {
            assert(head[i] == plan[i]);
        }
        removal_hides_writes(store, head, root);
    }
}

/// A scheme that is registered and then unregistered leaves nothing behind,
/// taking the registry to hold a string under each pair of a key and a value
/// name: no value within the scheme's tree can be read back, and the registry
/// is as if the scheme had been unregistered without being registered first.
pub proof fn unregister_leaves_nothing(
    store: Map<(Seq<char>, Seq<char>), Seq<char>>,
    scheme: Seq<char>,
    identifier: Seq<char>,
    exe: Seq<char>,
)
    ensures
        removed(written(store, record(scheme, identifier, exe)), scheme_key(scheme)) == removed(
            store,
            scheme_key(scheme),
        ),
        forall|key: Seq<char>, name: Seq<char>|
            within(key, scheme_key(scheme)) ==> !removed(
                written(store, record(scheme, identifier, exe)),
                scheme_key(scheme),
            ).dom().contains((key, name)),
{
    record_lies_within(scheme, identifier, exe);
    removal_hides_writes(store, record(scheme, identifier, exe), scheme_key(scheme));
}

/// A write that is made again after other writes is as if made then only.
proof fn rewrite_absorbs(
    store: Map<(Seq<char>, Seq<char>), Seq<char>>,
    plan: Seq<EntryView>,
    e: EntryView,
)
    ensures
        written(store.insert((e.key, e.name), e.value), plan).insert((e.key, e.name), e.value)
            == written(store, plan).insert((e.key, e.name), e.value),
    decreases plan.len(),
{
    if plan.len() > 0 {
        rewrite_absorbs(store, plan.drop_last(), e);
        let a = written(store.insert((e.key, e.name), e.value), plan.drop_last());
        let b = written(store, plan.drop_last());
        let k = (plan.last().key, plan.last().name);
        let v = plan.last().value;
        assert(a.insert(k, v).insert((e.key, e.name), e.value) =~= a.insert(
            (e.key, e.name),
            e.value,
        ).insert(k, v).insert((e.key, e.name), e.value));
        assert(b.insert(k, v).insert((e.key, e.name), e.value) =~= b.insert(
            (e.key, e.name),
            e.value,
        ).insert(k, v).insert((e.key, e.name), e.value));
    }
}

/// Writing the same entries a second time changes nothing.
proof fn writing_twice_is_once(store: Map<(Seq<char>, Seq<char>), Seq<char>>, plan: Seq<EntryView>)
    ensures
        written(written(store, plan), plan) == written(store, plan),
    decreases plan.len(),
{
    if plan.len() > 0 {
        let head = plan.drop_last();
        let e = plan.last();
        let once = written(store, head);
        writing_twice_is_once(store, head);
        rewrite_absorbs(once, head, e);
        assert(written(once, head).insert((e.key, e.name), e.value) =~= once.insert(
            (e.key, e.name),
            e.value,
        ));
    }
}

/// Registering a scheme twice is registering it once, taking the registry to
/// hold a string under each pair of a key and a value name: the second call
/// writes the same values under the same names, and the registry after it is
/// the registry after the first.
pub proof fn register_twice_is_once(
    store: Map<(Seq<char>, Seq<char>), Seq<char>>,
    scheme: Seq<char>,
    identifier: Seq<char>,
    exe: Seq<char>,
)
    ensures
        written(
            written(store, record(scheme, identifier, exe)),
            record(scheme, identifier, exe),
        ) == written(store, record(scheme, identifier, exe)),
{
    writing_twice_is_once(store, record(scheme, identifier, exe));
}

} // verus!
