use vstd::prelude::*;

use crate::error::Error;
use crate::file::RustFile;
use crate::shared::SharedBuffer;

verus! {

/// How many minor numbers the module binds; every one shares the same buffer.
pub const MINOR_COUNT: usize = 2;

/// A named registration that can bind up to `N` consecutive minor numbers,
/// starting at `minors_start`, to the device's operations.
///
/// States: active with `0..=N` minors bound, until `unregister`, after which it is
/// inactive with none bound and binds nothing more.
pub struct Registration<const N: usize> {
    name: String,
    minors_start: u16,
    used: usize,
    active: bool,
}

impl<const N: usize> Registration<N> {
    pub closed spec fn name(&self) -> Seq<char> {
        self.name@
    }

    pub closed spec fn first_minor(&self) -> nat {
        self.minors_start as nat
    }

    /// How many minors are bound.
    pub closed spec fn bound(&self) -> nat {
        self.used as nat
    }

    pub closed spec fn active(&self) -> bool {
        self.active
    }

    /// Never more than `N` minors, and inactive means none.
    pub open spec fn wf(&self) -> bool {
        &&& self.bound() <= N
        &&& !self.active() ==> self.bound() == 0
        &&& self.first_minor() + N <= usize::MAX
    }

    /// A registration named `name` with no minor bound yet.
    pub fn new(name: &str, minors_start: u16) -> (r: Self)
        requires
            minors_start + N <= usize::MAX,
        ensures
            r.wf(),
            r.name() == name@,
            r.first_minor() == minors_start,
            r.bound() == 0,
            r.active(),
    {
        Registration { name: name.to_owned(), minors_start, used: 0, active: true }
    }

    /// Binds the next free minor and returns its number. Fails with
    /// `RegistrationFailure`, changing nothing, once all `N` are bound or after
    /// `unregister`.
    pub fn register(&mut self) -> (r: Result<usize, Error>)
        requires
            old(self).wf(),
        ensures
            final(self).wf(),
            final(self).name() == old(self).name(),
            final(self).first_minor() == old(self).first_minor(),
            final(self).active() == old(self).active(),
            old(self).active() && old(self).bound() < N ==> r == Ok::<usize, Error>(
                (old(self).first_minor() + old(self).bound()) as usize,
            ) && final(self).bound() == old(self).bound() + 1,
            !(old(self).active() && old(self).bound() < N) ==> r == Err::<usize, Error>(
                Error::RegistrationFailure,
            ) && final(self).bound() == old(self).bound(),
    {
        if !self.active || self.used >= N {
            return Err(Error::RegistrationFailure);
        }
        let minor = self.minors_start as usize + self.used;
        self.used = self.used + 1;
        Ok(minor)
    }

    /// Releases every bound minor; afterwards nothing can be bound.
    pub fn unregister(&mut self)
        requires
            old(self).wf(),
        ensures
            final(self).wf(),
            final(self).name() == old(self).name(),
            final(self).first_minor() == old(self).first_minor(),
            final(self).bound() == 0,
            !final(self).active(),
    {
        self.used = 0;
        self.active = false;
    }

    /// Whether `minor` is one of the bound minor numbers.
    pub fn is_bound(&self, minor: usize) -> (r: bool)
        requires
            self.wf(),
        ensures
            r == (self.active() && self.first_minor() <= minor < self.first_minor()
                + self.bound()),
    {
        let start = self.minors_start as usize;
        self.active && start <= minor && minor - start < self.used
    }

    /// How many minors are bound.
    pub fn minor_count(&self) -> (r: usize)
        ensures
            r == self.bound(),
    {
        self.used
    }
}

/// The loaded module: the registration of its minors and the buffer they share.
/// Handles borrow the buffer, so the module cannot be unloaded while one is open.
pub struct RustChrdev {
    dev: Registration<MINOR_COUNT>,
    buffer: SharedBuffer,
}

impl RustChrdev {
    pub closed spec fn dev(&self) -> Registration<MINOR_COUNT> {
        self.dev
    }

    pub closed spec fn shared(&self) -> SharedBuffer {
        self.buffer
    }

    /// Loads the module: registers `name` from minor zero on, binds all
    /// `MINOR_COUNT` minors, and creates the zero-filled buffer they share.
    pub fn init(name: &str) -> (r: Result<RustChrdev, Error>)
        ensures
            r matches Ok(m) && ({
                &&& m.dev().wf()
                &&& m.dev().name() == name@
                &&& m.dev().first_minor() == 0
                &&& m.dev().bound() == MINOR_COUNT
                &&& m.dev().active()
            }),
    {
        let mut dev = Registration::<MINOR_COUNT>::new(name, 0);
        let mut k: usize = 0;
        while k < MINOR_COUNT
            invariant
                k <= MINOR_COUNT,
                dev.wf(),
                dev.name() == name@,
                dev.first_minor() == 0,
                dev.bound() == k,
                dev.active(),
            decreases MINOR_COUNT - k,
        {
            if let Err(e) = dev.register() {
                return Err(e);
            }
            k = k + 1;
        }
        Ok(RustChrdev { dev, buffer: SharedBuffer::new() })
    }

    /// Opens a handle on bound minor `minor`. Every minor hands out the same
    /// buffer. A minor that is not bound is no device: `RegistrationFailure`.
    pub fn open(&self, minor: usize) -> (r: Result<RustFile<'_>, Error>)
        requires
            self.dev().wf(),
        ensures
            self.dev().active() && self.dev().first_minor() <= minor < self.dev().first_minor()
                + self.dev().bound() ==> (r matches Ok(f) && f.buffer() == self.shared()),
            !(self.dev().active() && self.dev().first_minor() <= minor
                < self.dev().first_minor() + self.dev().bound()) ==> r
                is Err && r->Err_0 == Error::RegistrationFailure,
    {
        if !self.dev.is_bound(minor) {
            return Err(Error::RegistrationFailure);
        }
        RustFile::open(&self.buffer)
    }

    /// How many minors are bound.
    pub fn minor_count(&self) -> (r: usize)
        ensures
            r == self.dev().bound(),
    {
        self.dev.minor_count()
    }

    /// Unloads the module: every minor is released and the buffer goes with it.
    pub fn unload(self) -> (r: Registration<MINOR_COUNT>)
        requires
            self.dev().wf(),
        ensures
            r.wf(),
            r.name() == self.dev().name(),
            r.bound() == 0,
            !r.active(),
    {
        let mut dev = self.dev;
        dev.unregister();
        dev
    }
}

} // verus!
