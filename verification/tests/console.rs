use netconsole::console::flags::{
    CON_ANYTIME, CON_BOOT, CON_BRL, CON_CONSDEV, CON_ENABLED, CON_EXTENDED, CON_PRINTBUFFER,
    CON_SUSPENDED,
};
use netconsole::console::{setup_code_of, Console, ConsoleOps};
use netconsole::cstr::CStr;
use netconsole::driver::module::register_console;
use netconsole::error::{Error, EBUSY};
use std::sync::Mutex;

struct Recorder {
    seen: Mutex<Vec<Vec<u8>>>,
}

impl ConsoleOps for Recorder {
    const HAS_SETUP: bool = false;

    fn write(&self, msg: &[u8]) {
        self.seen.lock().unwrap().push(msg.to_vec());
    }
}

struct Picky;

impl ConsoleOps for Picky {
    const HAS_SETUP: bool = true;

    fn write(&self, _msg: &[u8]) {}

    fn setup(&self, options: Option<&CStr>) -> Result<(), Error> {
        match options {
            Some(s) if s.to_bytes() == b"ok" => Ok(()),
            _ => Err(Error(EBUSY)),
        }
    }
}

fn recorder() -> Recorder {
    Recorder { seen: Mutex::new(Vec::new()) }
}

#[test]
fn console_record() {
    let con = Console::register(&CStr::from_ascii("tty"), CON_ENABLED | CON_BOOT, Picky);
    assert!(con.is_registered());
    let rec = con.as_ptr();
    assert_eq!(&rec.name, b"tty\0\0\0\0\0\0\0\0\0\0\0\0\0");
    assert_eq!(rec.flags, 12);
    assert!(rec.write && rec.setup && rec.data);
    assert!(!Console::register(&CStr::from_ascii("tty"), 0, recorder()).as_ptr().setup);
}

#[test]
fn long_console_names_are_cut() {
    let con = Console::register(&CStr::from_ascii("12345678901234567890"), 0, Picky);
    assert_eq!(&con.as_ptr().name, b"123456789012345\0");
}

#[test]
fn console_of_the_driver() {
    let con = register_console(recorder());
    assert_eq!(&con.as_ptr().name[..7], b"netcon\0");
    assert_eq!(con.as_ptr().flags, (CON_ENABLED | CON_PRINTBUFFER) as i16);
    assert_eq!(con.as_ptr().flags, 5);
    assert!(!con.as_ptr().setup);
    assert!(con.unregister().is_some());
}

#[test]
fn console_callbacks() {
    let con = register_console(recorder());
    Console::write_callback(Some(con.data()), b"one");
    Console::<Recorder>::write_callback(None, b"lost");
    Console::write_callback(Some(con.data()), b"two");
    assert_eq!(*con.data().seen.lock().unwrap(), vec![b"one".to_vec(), b"two".to_vec()]);
    assert_eq!(Console::setup_callback(Some(con.data()), None), 0);
    assert_eq!(Console::<Picky>::setup_callback(None, None), 0);
    assert_eq!(Console::setup_callback(Some(&Picky), None), -16);
    assert_eq!(Console::setup_callback(Some(&Picky), Some(&CStr::from_ascii("ok"))), 0);
    assert_eq!(setup_code_of(Err(Error(EBUSY))), -16);
    assert_eq!(setup_code_of(Ok(())), 0);
}

#[test]
fn the_system_reaches_the_registered_driver() {
    let con = register_console(recorder());
    con.on_write(b"one");
    con.on_write(b"two");
    assert_eq!(*con.data().seen.lock().unwrap(), vec![b"one".to_vec(), b"two".to_vec()]);
    assert_eq!(con.on_setup(None), None);
    let con = Console::register(&CStr::from_ascii("tty"), 0, Picky);
    assert_eq!(con.on_setup(None), Some(-16));
    assert_eq!(con.on_setup(Some(&CStr::from_ascii("ok"))), Some(0));
}

#[test]
fn console_flag_values() {
    assert_eq!(
        [
            CON_PRINTBUFFER,
            CON_CONSDEV,
            CON_ENABLED,
            CON_BOOT,
            CON_ANYTIME,
            CON_BRL,
            CON_EXTENDED,
            CON_SUSPENDED
        ],
        [1, 2, 4, 8, 16, 32, 64, 128]
    );
}
