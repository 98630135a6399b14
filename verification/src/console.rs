//! Consoles: drivers that receive log messages and output them to a device.
//!
//! Adding a console to the system and taking it out again is done by the caller; the record to
//! do it with, and what the callbacks in it do, are made here.
use vstd::prelude::*;
use crate::bytes::{copy_into, overlay};
use crate::cstr::CStr;
use crate::error::Error;

pub mod flags;

verus! {

/// The operations of a console driver.
pub trait ConsoleOps: Sized + Send + Sync {
    /// Whether the driver has a `setup` of its own.
    const HAS_SETUP: bool;

    /// Writes a message to the console.
    fn write(&self, msg: &[u8]);

    /// Sets up the console when it is registered. `options` are those of the command line.
    fn setup(&self, options: Option<&CStr>) -> (r: Result<(), Error>)
        default_ensures
            r == Ok::<(), Error>(()),
    {
        Ok(())
    }
}

/// Size of a console name buffer, the terminating NUL included.
pub const CONSOLE_NAME_SIZE: usize = 16;

/// What the system keeps of a console.
#[derive(Debug)]
pub struct ConsoleRecord {
    pub name: [u8; CONSOLE_NAME_SIZE],
    pub flags: i16,
    /// There is a write callback.
    pub write: bool,
    /// There is a setup callback.
    pub setup: bool,
    /// The callbacks can reach the driver.
    pub data: bool,
}

/// A registered console.
#[derive(Debug)]
pub struct Console<T: ConsoleOps> {
    inner: ConsoleRecord,
    data: T,
    registered: bool,
}

/// The name as a record holds it: as many bytes as leave room for a NUL, then NULs.
pub open spec fn console_name(name: Seq<u8>) -> Seq<u8> {
    let kept = if name.len() < CONSOLE_NAME_SIZE {
        name
    } else {
        name.take(CONSOLE_NAME_SIZE - 1)
    };
    overlay(Seq::new(CONSOLE_NAME_SIZE as nat, |i: int| 0u8), kept)
}

impl<T: ConsoleOps> Console<T> {
    /// The callbacks can reach the driver; there is a setup callback exactly where the driver has
    /// a setup of its own.
    #[verifier::type_invariant]
    spec fn inv(self) -> bool {
        self.inner.data && self.inner.write && self.inner.setup == T::HAS_SETUP
    }

    /// The record of the console.
    pub closed spec fn record(self) -> ConsoleRecord {
        self.inner
    }

    /// The driver.
    pub closed spec fn ops(self) -> T {
        self.data
    }

    /// The console is registered.
    pub closed spec fn registered(self) -> bool {
        self.registered
    }

    /// Makes a console for registration. Of the name, the first fifteen bytes are kept.
    pub fn register(name: &CStr, console_flags: u16, data: T) -> (con: Console<T>)
        ensures
            con.record().name@ == console_name(name@),
            con.record().flags == console_flags as i16,
            con.record().write,
            con.record().setup == T::HAS_SETUP,
            con.record().data,
            con.ops() == data,
            con.registered(),
    {
        let bytes = name.to_bytes();
        let len: usize = if bytes.len() < CONSOLE_NAME_SIZE {
            bytes.len()
        } else {
            CONSOLE_NAME_SIZE - 1
        };
        let mut buf: [u8; CONSOLE_NAME_SIZE] = [0u8; CONSOLE_NAME_SIZE];
        let ghost zeros = buf@;
        assert(zeros =~= Seq::new(CONSOLE_NAME_SIZE as nat, |i: int| 0u8));
        copy_into(&mut buf, &bytes[0..len]);
        assert(buf@ =~= console_name(name@));
        Console {
            inner: ConsoleRecord {
                name: buf,
                flags: #[verifier::truncate] (console_flags as i16),
                write: true,
                setup: T::HAS_SETUP,
                data: true,
            },
            data,
            registered: true,
        }
    }

    /// The write callback: hands the message to the driver, where there is one to reach.
    pub fn write_callback(data: Option<&T>, msg: &[u8])
        ensures
            data matches Some(ops) ==> call_ensures(T::write, (ops, msg), ()),
    {
        if let Some(ops) = data {
            ops.write(msg);
        }
    }

    /// The setup callback: runs the driver's setup, where there is a driver to reach; zero stands
    /// for success, an error for its code.
    pub fn setup_callback(data: Option<&T>, options: Option<&CStr>) -> (code: i32)
        ensures
            data is None ==> code == 0,
            data matches Some(ops) ==> exists|r: Result<(), Error>| #[trigger]
                call_ensures(T::setup, (ops, options), r) && code == setup_code(r),
    {
        match data {
            None => 0,
            Some(ops) => setup_code_of(ops.setup(options)),
        }
    }

    /// The driver, as the callbacks reach it through the record.
    fn callback_data(&self) -> (data: Option<&T>)
        ensures
            data == Some(&self.ops()),
    {
        proof {
            use_type_invariant(self);
        }
        if self.inner.data {
            Some(&self.data)
        } else {
            None
        }
    }

    /// The system writes a message to the console: the driver that was registered gets it.
    pub fn on_write(&self, msg: &[u8])
        ensures
            call_ensures(T::write, (&self.ops(), msg), ()),
    {
        Console::<T>::write_callback(self.callback_data(), msg)
    }

    /// The system sets the console up: the driver that was registered is asked. Without a setup
    /// callback nothing is.
    pub fn on_setup(&self, options: Option<&CStr>) -> (code: Option<i32>)
        ensures
            !T::HAS_SETUP ==> code is None,
            T::HAS_SETUP ==> exists|r: Result<(), Error>| #[trigger]
                call_ensures(T::setup, (&self.ops(), options), r) && code == Some(setup_code(r)),
    {
        proof {
            use_type_invariant(self);
        }
        if self.inner.setup {
            Some(Console::<T>::setup_callback(self.callback_data(), options))
        } else {
            None
        }
    }

    /// Gives the console up: the record to take out of the system, where it is registered.
    pub fn unregister(self) -> (r: Option<ConsoleRecord>)
        ensures
            r == (if self.registered() {
                Some(self.record())
            } else {
                None
            }),
    {
        if self.registered {
            Some(self.inner)
        } else {
            None
        }
    }

    /// Whether the console is registered.
    pub fn is_registered(&self) -> (r: bool)
        ensures
            r == self.registered(),
    {
        self.registered
    }

    /// The record of the console; through it the callbacks reach the driver.
    pub fn as_ptr(&self) -> (r: &ConsoleRecord)
        ensures
            *r == self.record(),
            r.data,
            r.write,
            r.setup == T::HAS_SETUP,
    {
        proof {
            use_type_invariant(self);
        }
        &self.inner
    }

    /// The driver.
    pub fn data(&self) -> (r: &T)
        ensures
            *r == self.ops(),
    {
        &self.data
    }
}

/// The code that a setup result is reported as.
pub open spec fn setup_code(r: Result<(), Error>) -> i32 {
    match r {
        Ok(_) => 0,
        Err(e) => e.0,
    }
}

/// The code that a setup result is reported as.
pub fn setup_code_of(r: Result<(), Error>) -> (code: i32)
    ensures
        code == setup_code(r),
{
    match r {
        Ok(_) => 0,
        Err(e) => e.to_errno(),
    }
}

/// A record holds the first fifteen bytes of the name, or all of a shorter one, and NULs behind
/// them. A setup result is reported as zero or as the code of its error.
pub proof fn law_console_record_values(name: Seq<u8>, e: Error)
    ensures
        console_name(name).len() == 16,
        forall|i: int|
            0 <= i < 16 ==> #[trigger] console_name(name)[i] == (if i < 15 && i < name.len() {
                name[i]
            } else {
                0
            }),
        setup_code(Ok::<(), Error>(())) == 0,
        setup_code(Err::<(), Error>(e)) == e.0,
{
}

} // verus!
