//! Single-instance applications that receive deep links.
//!
//! An application that is launched a second time, by the user or by the
//! system for a link in a registered URL scheme, hands its arguments to the
//! instance that is already running and exits. This library holds the rules
//! of that arrangement: the identity of the application, the names derived
//! from it, the arbitration between instances, the format of the payload, and
//! the record that registers a scheme. It makes no system call. Each
//! operation says what is to be asked of the system, and takes the answer as
//! plain values.
//!
//! The state of the process is a [`Context`] that the caller keeps and passes
//! to every operation.
use vstd::prelude::*;

pub mod context;
pub mod error;
pub mod payload;
pub mod text;
pub mod windows;
pub mod windows_single;

pub use context::Context;
pub use context::ContextView;
pub use context::Role;
pub use error::Error;
pub use error::IoError;
pub use payload::Payload;
pub use windows::Entry;
pub use windows_single::Endpoint;
pub use windows_single::WindowRequest;

verus! {

/// The handles that the primary instance gives back to the system when it
/// stops listening.
#[derive(Clone, Copy, Debug, PartialEq, Eq, Structural)]
pub struct Teardown {
    /// The mutex to release and close.
    pub mutex_handle: Option<isize>,
    /// The window to destroy.
    pub target_window_handle: Option<isize>,
}

/// Sets the identifier of the application without starting the arbitration.
/// The identifier can be set once: a second attempt fails with
/// `AlreadyExists` and changes nothing. An identifier that holds NUL cannot
/// name an application: it fails with `InvalidInput` and changes nothing.
pub fn set_identifier(ctx: &mut Context, identifier: &str) -> (r: Result<(), Error>)
    ensures
        (final(ctx)@, r) == old(ctx)@.identified(identifier@),
        old(ctx)@.wf() ==> final(ctx)@.wf(),
{
    ctx.store_identifier(identifier)
}

/// Starts a process: sets the identifier and gives the names under which the
/// arbitration takes place. The caller creates the mutex of that name and
/// hands the outcome to [`windows_single::arbitrate`]. To be called once, before
/// anything else, with an identifier that holds no NUL.
pub fn prepare(ctx: &mut Context, identifier: &str) -> (endpoint: Endpoint)
    requires
        old(ctx)@.identifier is None,
        context::valid_identifier(identifier@),
    ensures
        final(ctx)@ == (ContextView { identifier: Some(identifier@), ..old(ctx)@ }),
        old(ctx)@.wf() ==> final(ctx)@.wf(),
        endpoint.names(identifier@),
{
    windows::prepare(ctx, identifier);
    windows_single::init(ctx)
}

/// What there is to write to the user's registry so that links in `scheme`
/// open this executable, whose canonical path reads `exe`; `unicode` says
/// whether `exe` is the path itself or only renders a path that is not
/// Unicode. Writing the record again overwrites it with itself.
pub fn register(ctx: &Context, scheme: &str, exe: &str, unicode: bool) -> (out: Vec<Entry>)
    requires
        ctx@.identifier is Some,
    ensures
        windows::registers(out.deep_view(), scheme@, ctx@.identifier->0, exe@, unicode),
{
    windows::register(ctx, scheme, exe, unicode)
}

/// The key in the user's registry whose tree is to be removed so that
/// `scheme` is registered no more.
pub fn unregister(scheme: &str) -> (key: String)
    ensures
        key@ == windows::scheme_key(scheme@),
{
    windows::unregister(scheme)
}

/// The endpoint that the primary instance installs to receive the payloads of
/// later instances. The caller creates it and hands the outcome to
/// [`windows_single::installed`].
pub fn listen(ctx: &Context) -> (request: WindowRequest)
    requires
        ctx@.wf(),
        ctx@.role == Role::Primary,
        ctx@.target_window_handle is None,
    ensures
        request.class_name@ == windows_single::wide(
            windows_single::class_name(ctx@.identifier->0),
        ),
        request.window_name@ == windows_single::wide(
            windows_single::window_name(ctx@.identifier->0),
        ),
        request.x == 0,
        request.y == 0,
        request.width == 0,
        request.height == 0,
        request.ex_style == windows_single::WS_EX_NOACTIVATE | windows_single::WS_EX_TRANSPARENT
            | windows_single::WS_EX_LAYERED | windows_single::WS_EX_TOOLWINDOW,
        request.style == windows_single::WS_OVERLAPPED,
        request.shown_style == windows_single::WS_VISIBLE | windows_single::WS_POPUP,
{
    windows::listen(ctx)
}

/// Stops listening: the process gives up the mutex and the window that it
/// holds, and the caller returns them to the system.
pub fn destroy(ctx: &mut Context) -> (teardown: Teardown)
    ensures
        teardown.mutex_handle == old(ctx)@.mutex_handle,
        teardown.target_window_handle == old(ctx)@.target_window_handle,
        final(ctx)@ == old(ctx)@.released(),
        old(ctx)@.wf() ==> final(ctx)@.wf(),
{
    let teardown = Teardown {
        mutex_handle: ctx.mutex_handle(),
        target_window_handle: ctx.target_window_handle(),
    };
    ctx.release();
    teardown
}

} // verus!
