use cargo_deep_link::destroy;
use cargo_deep_link::listen;
use cargo_deep_link::prepare;
use cargo_deep_link::set_identifier;
use cargo_deep_link::windows;
use cargo_deep_link::windows_single::arbitrate;
use cargo_deep_link::windows_single::create_event_target_window;
use cargo_deep_link::windows_single::handed_off;
use cargo_deep_link::windows_single::handoff;
use cargo_deep_link::windows_single::init;
use cargo_deep_link::windows_single::installed;
use cargo_deep_link::windows_single::receive;
use cargo_deep_link::windows_single::single_instance_window_proc;
use cargo_deep_link::windows_single::Dispatch;
use cargo_deep_link::windows_single::ERROR_ALREADY_EXISTS;
use cargo_deep_link::windows_single::WMCOPYDATA_SINGLE_INSTANCE_DATA;
use cargo_deep_link::windows_single::WM_COPYDATA;
use cargo_deep_link::windows_single::WM_DESTROY;
use cargo_deep_link::windows_single::WS_EX_LAYERED;
use cargo_deep_link::windows_single::WS_EX_NOACTIVATE;
use cargo_deep_link::windows_single::WS_EX_TOOLWINDOW;
use cargo_deep_link::windows_single::WS_EX_TRANSPARENT;
use cargo_deep_link::windows_single::WS_OVERLAPPED;
use cargo_deep_link::windows_single::WS_POPUP;
use cargo_deep_link::windows_single::WS_VISIBLE;
use cargo_deep_link::Context;
use cargo_deep_link::Error;
use cargo_deep_link::IoError;
use cargo_deep_link::Payload;
use cargo_deep_link::Role;
use cargo_deep_link::Teardown;
use std::collections::HashMap;
use windows_sys::Win32::Foundation;
use windows_sys::Win32::UI::WindowsAndMessaging;

fn strings(items: &[&str]) -> Vec<String> {
    items.iter().map(|s| s.to_string()).collect()
}

fn wide(s: &str) -> Vec<u16> {
    s.encode_utf16().chain(std::iter::once(0)).collect()
}

/// The part of the system that the protocol relies on: named mutexes, of
/// which the first creation finds the name free, and windows found by name.
struct System {
    mutexes: HashMap<Vec<u16>, isize>,
    windows: HashMap<(Vec<u16>, Vec<u16>), isize>,
    next: isize,
}

impl System {
    fn new() -> System {
        System { mutexes: HashMap::new(), windows: HashMap::new(), next: 0x100 }
    }

    fn create_mutex(&mut self, name: &[u16]) -> (isize, u32) {
        if let Some(handle) = self.mutexes.get(name) {
            return (*handle, ERROR_ALREADY_EXISTS);
        }
        self.next += 4;
        self.mutexes.insert(name.to_vec(), self.next);
        (self.next, 0)
    }

    fn create_window(&mut self, class_name: &[u16], window_name: &[u16]) -> isize {
        self.next += 4;
        self.windows.insert((class_name.to_vec(), window_name.to_vec()), self.next);
        self.next
    }

    fn find_window(&self, class_name: &[u16], window_name: &[u16]) -> isize {
        match self.windows.get(&(class_name.to_vec(), window_name.to_vec())) {
            Some(handle) => *handle,
            None => 0,
        }
    }
}

/// Runs `prepare` of one process up to the arbitration.
fn start(system: &mut System, identifier: &str) -> Context {
    let mut ctx = Context::new();
    let endpoint = prepare(&mut ctx, identifier);
    let (mutex, last_error) = system.create_mutex(&endpoint.mutex_name);
    arbitrate(&mut ctx, mutex, last_error).unwrap();
    ctx
}

/// Installs the endpoint of a primary instance.
fn install(system: &mut System, ctx: &mut Context) -> Result<(), Error> {
    let request = listen(ctx);
    let window = system.create_window(&request.class_name, &request.window_name);
    installed(ctx, window)
}

/// What the window procedure of the primary instance does with a message
/// that carries `data`: it hands each payload to the handler and answers.
fn window_proc(handler: &mut Vec<Payload>, msg: u32, tag: usize, data: &[u8]) -> isize {
    let dispatch = single_instance_window_proc(msg);
    if dispatch == Dispatch::Receive {
        if let Some(payload) = receive(tag, data) {
            handler.push(payload);
        }
    }
    dispatch.answer().unwrap_or(-1)
}

#[test]
fn the_constants_are_those_of_the_system() {
    assert_eq!(ERROR_ALREADY_EXISTS, Foundation::ERROR_ALREADY_EXISTS);
    assert_eq!(WM_COPYDATA, WindowsAndMessaging::WM_COPYDATA);
    assert_eq!(WM_DESTROY, WindowsAndMessaging::WM_DESTROY);
    assert_eq!(WS_EX_NOACTIVATE, WindowsAndMessaging::WS_EX_NOACTIVATE);
    assert_eq!(WS_EX_TRANSPARENT, WindowsAndMessaging::WS_EX_TRANSPARENT);
    assert_eq!(WS_EX_LAYERED, WindowsAndMessaging::WS_EX_LAYERED);
    assert_eq!(WS_EX_TOOLWINDOW, WindowsAndMessaging::WS_EX_TOOLWINDOW);
    assert_eq!(WS_OVERLAPPED, WindowsAndMessaging::WS_OVERLAPPED);
    assert_eq!(WS_VISIBLE, WindowsAndMessaging::WS_VISIBLE);
    assert_eq!(WS_POPUP, WindowsAndMessaging::WS_POPUP);
    assert_eq!(WMCOPYDATA_SINGLE_INSTANCE_DATA, 1542);
    assert_eq!(windows::ERROR_FILE_NOT_FOUND, Foundation::ERROR_FILE_NOT_FOUND as i32);
}

#[test]
fn init_derives_the_names_from_the_identifier() {
    let mut ctx = Context::new();
    set_identifier(&mut ctx, "app.test").unwrap();
    let endpoint = init(&ctx);
    assert_eq!(endpoint.class_name, wide("app.test-sic"));
    assert_eq!(endpoint.window_name, wide("app.test-siw"));
    assert_eq!(endpoint.mutex_name, wide("app.test-sim"));
}

#[test]
fn the_process_that_finds_the_mutex_new_is_primary() {
    let mut ctx = Context::new();
    prepare(&mut ctx, "app.test");
    assert_eq!(arbitrate(&mut ctx, 0x44, 0), Ok(Role::Primary));
    assert_eq!(ctx.role(), Role::Primary);
    assert_eq!(ctx.mutex_handle(), Some(0x44));
    assert_eq!(ctx.target_window_handle(), None);
}

#[test]
fn the_process_that_finds_the_mutex_there_is_secondary() {
    let mut ctx = Context::new();
    prepare(&mut ctx, "app.test");
    assert_eq!(arbitrate(&mut ctx, 0x44, ERROR_ALREADY_EXISTS), Ok(Role::Secondary));
    assert_eq!(ctx.role(), Role::Secondary);
    assert_eq!(ctx.mutex_handle(), None);
}

#[test]
fn the_process_that_finds_the_mutex_there_is_secondary_whatever_the_handle() {
    let mut ctx = Context::new();
    prepare(&mut ctx, "app.test");
    assert_eq!(arbitrate(&mut ctx, 0, ERROR_ALREADY_EXISTS), Ok(Role::Secondary));
    assert_eq!(ctx.role(), Role::Secondary);
    assert_eq!(ctx.mutex_handle(), None);
}

#[test]
fn a_mutex_that_was_not_created_is_reported_and_gives_no_role() {
    let mut ctx = Context::new();
    prepare(&mut ctx, "app.test");
    assert_eq!(arbitrate(&mut ctx, 0, 5), Err(Error::Io(IoError::Mutex(5))));
    assert_eq!(ctx.role(), Role::Undetermined);
    assert_eq!(ctx.mutex_handle(), None);
    assert_eq!(ctx.target_window_handle(), None);
    assert_eq!(ctx.identifier().map(|s| s.as_str()), Some("app.test"));
}

#[test]
fn a_mutex_that_was_not_created_without_an_error_code_is_reported() {
    let mut ctx = Context::new();
    prepare(&mut ctx, "app.test");
    assert_eq!(arbitrate(&mut ctx, 0, 0), Err(Error::Io(IoError::Mutex(0))));
    assert_eq!(ctx.role(), Role::Undetermined);
}

#[test]
fn the_arbitration_can_be_made_again_after_a_failure() {
    let mut ctx = Context::new();
    prepare(&mut ctx, "app.test");
    assert_eq!(arbitrate(&mut ctx, 0, 8), Err(Error::Io(IoError::Mutex(8))));
    assert_eq!(arbitrate(&mut ctx, 0x44, 0), Ok(Role::Primary));
    assert_eq!(ctx.mutex_handle(), Some(0x44));
}

#[test]
fn a_mutex_that_was_created_makes_the_process_primary_whatever_the_code() {
    let mut ctx = Context::new();
    prepare(&mut ctx, "app.test");
    assert_eq!(arbitrate(&mut ctx, 0x44, 5), Ok(Role::Primary));
    assert_eq!(ctx.mutex_handle(), Some(0x44));
}

#[test]
fn of_several_processes_exactly_one_is_primary() {
    let mut system = System::new();
    let roles: Vec<Role> = (0..5).map(|_| start(&mut system, "app.test").role()).collect();
    assert_eq!(roles.iter().filter(|r| **r == Role::Primary).count(), 1);
    assert_eq!(roles.iter().filter(|r| **r == Role::Secondary).count(), 4);
    assert_eq!(roles[0], Role::Primary);
}

#[test]
fn applications_with_different_identifiers_do_not_interfere() {
    let mut system = System::new();
    assert_eq!(start(&mut system, "app.one").role(), Role::Primary);
    assert_eq!(start(&mut system, "app.two").role(), Role::Primary);
    assert_eq!(start(&mut system, "app.one").role(), Role::Secondary);
}

#[test]
fn handoff_without_a_window_reports_that_the_endpoint_was_not_found() {
    assert_eq!(
        handoff(0, "C:\\work", &strings(&["app.exe"])),
        Err(Error::Io(IoError::NotFound))
    );
    assert_eq!(handoff(0, "C:\\work", &strings(&["a|b"])), Err(Error::Io(IoError::NotFound)));
}

#[test]
fn handoff_to_a_window_gives_the_payload_on_the_wire() {
    assert_eq!(
        handoff(0x2A, "C:\\work", &strings(&["app.exe", "myscheme://x"])),
        Ok(b"C:\\work|app.exe|myscheme://x\0".to_vec())
    );
}

#[test]
fn handoff_of_a_payload_that_cannot_be_sent_is_refused() {
    assert_eq!(
        handoff(0x2A, "C:\\work", &strings(&["app.exe", "a|b"])),
        Err(Error::Io(IoError::InvalidInput))
    );
    assert_eq!(handoff(0x2A, "C:|work", &strings(&[])), Err(Error::Io(IoError::InvalidInput)));
}

#[test]
fn handoff_without_arguments_gives_the_directory_on_the_wire() {
    assert_eq!(handoff(0x2A, "C:/w", &strings(&[])), Ok(b"C:/w\0".to_vec()));
}

#[test]
fn a_second_instance_without_arguments_hands_over_no_arguments() {
    let mut system = System::new();
    let mut handler: Vec<Payload> = Vec::new();

    let mut a = start(&mut system, "app.test");
    install(&mut system, &mut a).unwrap();

    let b = start(&mut system, "app.test");
    assert_eq!(b.role(), Role::Secondary);
    let endpoint = init(&b);
    let window = system.find_window(&endpoint.class_name, &endpoint.window_name);
    let data = handoff(window, "C:/w", &Vec::<String>::new()).unwrap();
    let answer = window_proc(&mut handler, WM_COPYDATA, WMCOPYDATA_SINGLE_INSTANCE_DATA, &data);
    assert_eq!(handed_off(answer), Ok(0));

    assert_eq!(handler.len(), 1);
    assert_eq!(handler[0].cwd, "C:/w");
    assert_eq!(handler[0].args, Vec::<String>::new());
    assert_eq!(handler[0].args.len(), 0);
}

#[test]
fn a_message_that_was_taken_ends_the_secondary_instance_with_success() {
    assert_eq!(handed_off(1), Ok(0));
    assert_eq!(handed_off(-1), Ok(0));
}

#[test]
fn a_message_that_was_not_taken_is_reported() {
    assert_eq!(handed_off(0), Err(Error::Io(IoError::Send)));
}

#[test]
fn the_event_target_window_is_hidden_from_the_user() {
    let request = create_event_target_window(wide("c"), wide("w"));
    assert_eq!(request.class_name, wide("c"));
    assert_eq!(request.window_name, wide("w"));
    assert_eq!((request.x, request.y, request.width, request.height), (0, 0, 0, 0));
    assert_eq!(request.ex_style, 0x0808_00A0);
    assert_eq!(request.style, 0);
    assert_eq!(request.shown_style, 0x9000_0000);
    assert_eq!(
        request.ex_style,
        WindowsAndMessaging::WS_EX_NOACTIVATE | WindowsAndMessaging::WS_EX_TRANSPARENT
            | WindowsAndMessaging::WS_EX_LAYERED | WindowsAndMessaging::WS_EX_TOOLWINDOW
    );
    assert_eq!(
        request.shown_style,
        WindowsAndMessaging::WS_VISIBLE | WindowsAndMessaging::WS_POPUP
    );
}

#[test]
fn listen_asks_for_the_window_of_the_application() {
    let mut system = System::new();
    let ctx = start(&mut system, "app.test");
    let request = listen(&ctx);
    assert_eq!(request.class_name, wide("app.test-sic"));
    assert_eq!(request.window_name, wide("app.test-siw"));
    assert_eq!((request.x, request.y, request.width, request.height), (0, 0, 0, 0));
    assert_eq!(request.ex_style, 0x0808_00A0);
    assert_eq!(request.style, 0);
    assert_eq!(request.shown_style, 0x9000_0000);
    let same = windows::listen(&ctx);
    assert_eq!(same.class_name, request.class_name);
    assert_eq!(same.window_name, request.window_name);
    assert_eq!((same.x, same.y, same.width, same.height), (0, 0, 0, 0));
    assert_eq!(same.ex_style, request.ex_style);
    assert_eq!(same.style, request.style);
    assert_eq!(same.shown_style, request.shown_style);
}

#[test]
fn installed_keeps_the_window() {
    let mut system = System::new();
    let mut ctx = start(&mut system, "app.test");
    assert_eq!(installed(&mut ctx, 0x50), Ok(()));
    assert_eq!(ctx.target_window_handle(), Some(0x50));
}

#[test]
fn a_window_that_was_not_created_is_reported() {
    let mut system = System::new();
    let mut ctx = start(&mut system, "app.test");
    assert_eq!(installed(&mut ctx, 0), Err(Error::Io(IoError::Endpoint)));
    assert_eq!(ctx.target_window_handle(), None);
    assert_eq!(ctx.role(), Role::Primary);
}

#[test]
fn the_window_procedure_tells_the_messages_apart() {
    assert_eq!(single_instance_window_proc(WM_COPYDATA), Dispatch::Receive);
    assert_eq!(single_instance_window_proc(WM_DESTROY), Dispatch::Release);
    assert_eq!(single_instance_window_proc(0), Dispatch::Default);
    assert_eq!(single_instance_window_proc(0x000F), Dispatch::Default);
    assert_eq!(Dispatch::Receive.answer(), Some(1));
    assert_eq!(Dispatch::Release.answer(), Some(0));
    assert_eq!(Dispatch::Default.answer(), None);
}

#[test]
fn receive_reads_a_marked_message_only() {
    assert_eq!(
        receive(WMCOPYDATA_SINGLE_INSTANCE_DATA, b"C:\\work|app.exe\0"),
        Some(Payload { cwd: "C:\\work".to_string(), args: strings(&["app.exe"]) })
    );
    assert_eq!(receive(0, b"C:\\work|app.exe\0"), None);
    assert_eq!(receive(1543, b"C:\\work|app.exe\0"), None);
}

#[test]
fn destroy_gives_the_handles_back_once() {
    let mut system = System::new();
    let mut ctx = start(&mut system, "app.test");
    install(&mut system, &mut ctx).unwrap();
    let mutex = ctx.mutex_handle();
    let window = ctx.target_window_handle();
    assert!(mutex.is_some() && window.is_some());
    assert_eq!(destroy(&mut ctx), Teardown { mutex_handle: mutex, target_window_handle: window });
    assert_eq!(ctx.mutex_handle(), None);
    assert_eq!(ctx.target_window_handle(), None);
    assert_eq!(ctx.role(), Role::Primary);
    assert_eq!(ctx.identifier().map(|s| s.as_str()), Some("app.test"));
    assert_eq!(destroy(&mut ctx), Teardown { mutex_handle: None, target_window_handle: None });
}

#[test]
fn destroy_of_a_process_that_holds_nothing_gives_nothing() {
    let mut ctx = Context::new();
    assert_eq!(destroy(&mut ctx), Teardown { mutex_handle: None, target_window_handle: None });
}

#[test]
fn a_second_instance_hands_its_arguments_to_the_first_and_exits() {
    let mut system = System::new();
    let mut handler: Vec<Payload> = Vec::new();

    let mut a = start(&mut system, "app.test");
    assert_eq!(a.role(), Role::Primary);
    install(&mut system, &mut a).unwrap();

    let b = start(&mut system, "app.test");
    assert_eq!(b.role(), Role::Secondary);
    let endpoint = init(&b);
    let window = system.find_window(&endpoint.class_name, &endpoint.window_name);
    assert_eq!(Some(window), a.target_window_handle());
    let argv = strings(&["C:\\app\\app.exe", "myscheme://open?item=7"]);
    let data = handoff(window, "C:\\Users\\b", &argv).unwrap();
    let answer = window_proc(&mut handler, WM_COPYDATA, WMCOPYDATA_SINGLE_INSTANCE_DATA, &data);
    assert_eq!(handed_off(answer), Ok(0));

    assert_eq!(handler, vec![Payload { cwd: "C:\\Users\\b".to_string(), args: argv.clone() }]);
    assert_eq!(windows::link(&handler[0].args), "C:\\app\\app.exe myscheme://open?item=7");
}

#[test]
fn a_second_instance_that_finds_no_endpoint_reports_it() {
    let mut system = System::new();
    let a = start(&mut system, "app.test");
    assert_eq!(a.role(), Role::Primary);

    let b = start(&mut system, "app.test");
    assert_eq!(b.role(), Role::Secondary);
    let endpoint = init(&b);
    let window = system.find_window(&endpoint.class_name, &endpoint.window_name);
    assert_eq!(window, 0);
    assert_eq!(
        handoff(window, "C:\\Users\\b", &strings(&["C:\\app\\app.exe"])),
        Err(Error::Io(IoError::NotFound))
    );
}

#[test]
fn a_message_of_another_kind_does_not_reach_the_handler() {
    let mut handler: Vec<Payload> = Vec::new();
    assert_eq!(window_proc(&mut handler, WM_COPYDATA, 7, b"C:\\work|app.exe\0"), 1);
    assert_eq!(window_proc(&mut handler, WM_DESTROY, 0, b""), 0);
    assert_eq!(window_proc(&mut handler, 0x0001, 0, b""), -1);
    assert!(handler.is_empty());
}

#[test]
fn link_joins_the_arguments_with_spaces() {
    assert_eq!(windows::link(&strings(&[])), "");
    assert_eq!(windows::link(&strings(&["myscheme://x"])), "myscheme://x");
    assert_eq!(windows::link(&strings(&["app.exe", "myscheme://x", "y"])), "app.exe myscheme://x y");
}
