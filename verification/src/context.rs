//! The state that one process keeps: its identifier, the role that the
//! arbitration gave it, and the handles it owns as the primary instance.
use vstd::prelude::*;
use crate::error::Error;
use crate::error::IoError;
use crate::text::contains_char;

verus! {

/// What the arbitration made of this process.
#[derive(Clone, Copy, Debug, PartialEq, Eq, Structural)]
pub enum Role {
    /// The arbitration has not taken place.
    Undetermined,
    /// This process owns the application's identity and receives payloads.
    Primary,
    /// Another process owns the identity; this one hands its payload over.
    Secondary,
}

/// The state of one process. The identifier is set at most once and never
/// changed; the role is decided at most once.
#[derive(Debug)]
pub struct Context {
    identifier: Option<String>,
    role: Role,
    mutex_handle: Option<isize>,
    target_window_handle: Option<isize>,
}

/// A context as a mathematical value.
pub struct ContextView {
    pub identifier: Option<Seq<char>>,
    pub role: Role,
    /// The arbitration token, where this process holds it.
    pub mutex_handle: Option<isize>,
    /// The listening endpoint, where this process has installed it.
    pub target_window_handle: Option<isize>,
}

/// The identifier can name an application: it holds no NUL. The system reads
/// a name up to its first NUL, so that identifiers with one would share their
/// names with others.
pub open spec fn valid_identifier(identifier: Seq<char>) -> bool {
    !identifier.contains('\0')
}

/// Whether the identifier can name an application.
pub fn is_valid_identifier(identifier: &str) -> (ok: bool)
    ensures
        ok == valid_identifier(identifier@),
{
    !contains_char(identifier, '\0')
}

impl ContextView {
    /// The state of a process that has done nothing yet.
    pub open spec fn fresh() -> ContextView {
        ContextView {
            identifier: None,
            role: Role::Undetermined,
            mutex_handle: None,
            target_window_handle: None,
        }
    }

    /// The identifier is valid, a role is decided only under an identifier,
    /// and only the primary instance holds the token and the endpoint.
    pub open spec fn wf(self) -> bool {
        &&& self.identifier is Some ==> valid_identifier(self.identifier->0)
        &&& self.role != Role::Undetermined ==> self.identifier is Some
        &&& self.mutex_handle is Some ==> self.role == Role::Primary
        &&& self.target_window_handle is Some ==> self.role == Role::Primary
    }

    /// The state after an attempt to set the identifier, and what the attempt
    /// returns: the first attempt with a valid identifier sets it, and every
    /// later attempt is refused and changes nothing. An identifier that is
    /// not valid is refused and changes nothing either.
    pub open spec fn identified(self, identifier: Seq<char>) -> (ContextView, Result<(), Error>) {
        if self.identifier is Some {
            (self, Err(Error::AlreadyExists))
        } else if !valid_identifier(identifier) {
            (self, Err(Error::Io(IoError::InvalidInput)))
        } else {
            (ContextView { identifier: Some(identifier), ..self }, Ok(()))
        }
    }

    /// The state after the arbitration gave `role`, having created or opened
    /// the exclusivity object `mutex`: the primary instance keeps it.
    pub open spec fn arbitrated(self, role: Role, mutex: isize) -> ContextView {
        ContextView {
            role,
            mutex_handle: if role == Role::Primary {
                Some(mutex)
            } else {
                None
            },
            ..self
        }
    }

    /// The state after the endpoint `window` was installed.
    pub open spec fn listening(self, window: isize) -> ContextView {
        ContextView { target_window_handle: Some(window), ..self }
    }

    /// The state after the token and the endpoint were given up.
    pub open spec fn released(self) -> ContextView {
        ContextView { mutex_handle: None, target_window_handle: None, ..self }
    }
}

impl View for Context {
    type V = ContextView;

    closed spec fn view(&self) -> ContextView {
        ContextView {
            identifier: match self.identifier {
                Some(s) => Some(s@),
                None => None,
            },
            role: self.role,
            mutex_handle: self.mutex_handle,
            target_window_handle: self.target_window_handle,
        }
    }
}

impl Context {
    /// The state of a process that has done nothing yet.
    pub fn new() -> (c: Context)
        ensures
            c@ == ContextView::fresh(),
            c@.wf(),
    {
        Context {
            identifier: None,
            role: Role::Undetermined,
            mutex_handle: None,
            target_window_handle: None,
        }
    }

    /// The identifier, once it is set.
    pub fn identifier(&self) -> (id: Option<&String>)
        ensures
            id is Some <==> self@.identifier is Some,
            id is Some ==> id->0@ == self@.identifier->0,
    {
        match &self.identifier {
            Some(s) => Some(s),
            None => None,
        }
    }

    pub fn role(&self) -> (role: Role)
        ensures
            role == self@.role,
    {
        self.role
    }

    /// The handle of the exclusivity object, while this process holds it.
    pub fn mutex_handle(&self) -> (handle: Option<isize>)
        ensures
            handle == self@.mutex_handle,
    {
        self.mutex_handle
    }

    /// The handle of the listening endpoint, while it is installed.
    pub fn target_window_handle(&self) -> (handle: Option<isize>)
        ensures
            handle == self@.target_window_handle,
    {
        self.target_window_handle
    }

    /// Sets the identifier, unless one is set or the identifier is not valid.
    pub(crate) fn store_identifier(&mut self, identifier: &str) -> (r: Result<(), Error>)
        ensures
            (final(self)@, r) == old(self)@.identified(identifier@),
            old(self)@.wf() ==> final(self)@.wf(),
    {
        if self.identifier.is_some() {
            return Err(Error::AlreadyExists);
        }
        if !is_valid_identifier(identifier) {
            return Err(Error::Io(IoError::InvalidInput));
        }
        self.identifier = Some(identifier.to_owned());
        Ok(())
    }

    /// Records the outcome of the arbitration.
    pub(crate) fn store_role(&mut self, role: Role, mutex: isize)
        requires
            old(self)@.wf(),
            old(self)@.identifier is Some,
            old(self)@.role == Role::Undetermined,
            role != Role::Undetermined,
        ensures
            final(self)@ == old(self)@.arbitrated(role, mutex),
            final(self)@.wf(),
    {
        self.role = role;
        self.mutex_handle = match role {
            Role::Primary => Some(mutex),
            _ => None,
        };
    }

    /// Records the endpoint that was installed.
    pub(crate) fn store_target_window(&mut self, window: isize)
        requires
            old(self)@.wf(),
            old(self)@.role == Role::Primary,
            old(self)@.target_window_handle is None,
        ensures
            final(self)@ == old(self)@.listening(window),
            final(self)@.wf(),
    {
        self.target_window_handle = Some(window);
    }

    /// Gives up the token and the endpoint.
    pub(crate) fn release(&mut self)
        ensures
            final(self)@ == old(self)@.released(),
            old(self)@.wf() ==> final(self)@.wf(),
    {
        self.mutex_handle = None;
        self.target_window_handle = None;
    }
}

/// The identifier is write-once: of two attempts to set it, the first with a
/// valid identifier and the second with any value, the second is refused with
/// `AlreadyExists` and leaves the state as the first left it, whether or not
/// an identifier was set before them.
pub proof fn identifier_is_set_once(c: ContextView, first: Seq<char>, second: Seq<char>)
    requires
        valid_identifier(first),
    ensures
        ({
            let (c1, r1) = c.identified(first);
            let (c2, r2) = c1.identified(second);
            &&& r2 == Err::<(), Error>(Error::AlreadyExists)
            &&& c2 == c1
            &&& c.identifier is None ==> r1 is Ok && c2.identifier == Some(first)
            &&& c.identifier is Some ==> r1 is Err && c2.identifier == c.identifier
        }),
{
}

/// An identifier that is not valid is never taken: the attempt fails with
/// `InvalidInput` where no identifier is set, and changes nothing.
pub proof fn an_invalid_identifier_is_refused(c: ContextView, identifier: Seq<char>)
    requires
        !valid_identifier(identifier),
    ensures
        c.identified(identifier).0 == c,
        c.identified(identifier).1 is Err,
        c.identifier is None ==> c.identified(identifier).1 == Err::<(), Error>(
            Error::Io(IoError::InvalidInput),
        ),
{
}

} // verus!
