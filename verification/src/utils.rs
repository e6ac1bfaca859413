//! Small decisions around the system's handles, registry values, scheduled
//! tasks and the tray icon.
use crate::dispatch::WM_USER_TRAYICON;
use crate::text::{chars_of, is_whitespace, spec_is_whitespace, string_from_chars};
use vstd::prelude::*;
use vstd::string::StringExecFns;

verus! {

/// The first build of the release that draws rounded corners.
pub const WIN11_BUILD_NUMBER: u32 = 22000;

/// Whether a build number belongs to that release or a later one.
pub fn is_win11(build_number: Option<u32>) -> (r: bool)
    ensures
        r == match build_number {
            Some(b) => b >= WIN11_BUILD_NUMBER,
            None => false,
        },
{
    match build_number {
        Some(b) => b >= WIN11_BUILD_NUMBER,
        None => false,
    }
}

/// The state bit of a title bar that marks a window without one.
pub const STATE_SYSTEM_INVISIBLE: u32 = 0x8000;

/// Whether a window is one of the shell's own, such as the desktop or a tray
/// program: its title bar is marked invisible.
pub fn is_special_window(title_bar_state: u32) -> (r: bool)
    ensures
        r == (title_bar_state & STATE_SYSTEM_INVISIBLE != 0),
{
    title_bar_state & STATE_SYSTEM_INVISIBLE != 0
}

/// Whether a handle value stands for no object.
pub open spec fn spec_invalid_handle(handle: isize) -> bool {
    handle == -1 || handle == 0
}

/// A handle that is closed when its owner lets go of it.
#[derive(Debug)]
pub struct HandleWrapper {
    handle: isize,
}

impl HandleWrapper {
    pub closed spec fn value(&self) -> isize {
        self.handle
    }

    pub fn new(handle: isize) -> (r: Self)
        ensures
            r.value() == handle,
    {
        HandleWrapper { handle }
    }

    pub fn get_handle(&self) -> (r: isize)
        ensures
            r == self.value(),
    {
        self.handle
    }

    pub fn get_handle_mut(&mut self) -> (r: &mut isize)
        ensures
            *r == old(self).value(),
            final(self).value() == *final(r),
    {
        &mut self.handle
    }

    /// Whether the handle stands for no object.
    pub fn is_invalid(&self) -> (r: bool)
        ensures
            r == spec_invalid_handle(self.value()),
    {
        self.handle == -1 || self.handle == 0
    }

    /// Lets go of the handle: returns it if it has to be closed, and leaves
    /// the wrapper without one.
    pub fn release(&mut self) -> (r: Option<isize>)
        ensures
            r == if spec_invalid_handle(old(self).value()) {
                None
            } else {
                Some(old(self).value())
            },
            final(self).value() == 0,
    {
        let handle = self.handle;
        self.handle = 0;
        if handle == -1 || handle == 0 {
            None
        } else {
            Some(handle)
        }
    }
}

impl Default for HandleWrapper {
    fn default() -> (r: Self)
        ensures
            r.value() == 0,
    {
        HandleWrapper { handle: 0 }
    }
}

/// A value that a system call returned, which may stand for failure.
pub trait CheckError: Sized {
    /// Whether the value stands for failure.
    spec fn failed(&self) -> bool;

    /// The value, or the error code where it stands for failure.
    fn check_error(self, last_error: u32) -> (r: Result<Self, u32>)
        ensures
            self.failed() ==> r == Err::<Self, u32>(last_error),
            !self.failed() ==> r == Ok::<Self, u32>(self),
    ;
}

impl CheckError for HandleWrapper {
    open spec fn failed(&self) -> bool {
        spec_invalid_handle(self.value())
    }

    fn check_error(self, last_error: u32) -> (r: Result<Self, u32>) {
        if self.is_invalid() {
            Err(last_error)
        } else {
            Ok(self)
        }
    }
}

impl CheckError for isize {
    open spec fn failed(&self) -> bool {
        *self == 0
    }

    fn check_error(self, last_error: u32) -> (r: Result<Self, u32>) {
        if self == 0 {
            Err(last_error)
        } else {
            Ok(self)
        }
    }
}

impl CheckError for u16 {
    open spec fn failed(&self) -> bool {
        *self == 0
    }

    fn check_error(self, last_error: u32) -> (r: Result<Self, u32>) {
        if self == 0 {
            Err(last_error)
        } else {
            Ok(self)
        }
    }
}

/// One running instance: it holds the mutex of its name unless another
/// instance held the name first.
pub struct SingleInstance {
    handle: Option<isize>,
}

impl SingleInstance {
    pub closed spec fn held(&self) -> Option<isize> {
        self.handle
    }

    /// The instance for a mutex that was created, given whether the name
    /// existed already.
    pub fn create(mutex: isize, already_exists: bool) -> (r: Self)
        ensures
            r.held() == if already_exists {
                None
            } else {
                Some(mutex)
            },
    {
        SingleInstance {
            handle: if already_exists {
                None
            } else {
                Some(mutex)
            },
        }
    }

    /// Whether this instance is the only one.
    pub fn is_single(&self) -> (r: bool)
        ensures
            r == self.held().is_some(),
    {
        self.handle.is_some()
    }

    /// Lets go of the mutex: returns its handle for release, if one is held.
    pub fn release(&mut self) -> (r: Option<isize>)
        ensures
            r == old(self).held(),
            final(self).held() is None,
    {
        self.handle.take()
    }
}

/// The type of a registry value that holds a 32-bit number, high byte first.
pub const REG_DWORD_BIG_ENDIAN: u32 = 5;

/// A value under a key of the current user.
#[derive(Debug)]
pub struct RegKey {
    pub hkey: isize,
    pub name: Vec<u16>,
}

impl RegKey {
    pub fn new(hkey: isize, name: Vec<u16>) -> (r: Self)
        ensures
            r.hkey == hkey,
            r.name@ == name@,
    {
        RegKey { hkey, name }
    }

    /// The number that four bytes of a registry value hold: read high byte
    /// first where the value's type says so, low byte first otherwise.
    pub fn get_int(kind: u32, value: [u8; 4]) -> (r: u32)
        ensures
            r == if kind == REG_DWORD_BIG_ENDIAN {
                (value[0] as u32) << 24 | (value[1] as u32) << 16 | (value[2] as u32) << 8 | (
                value[3] as u32)
            } else {
                (value[3] as u32) << 24 | (value[2] as u32) << 16 | (value[1] as u32) << 8 | (
                value[0] as u32)
            },
    {
        if kind == REG_DWORD_BIG_ENDIAN {
            (value[0] as u32) << 24 | (value[1] as u32) << 16 | (value[2] as u32) << 8 | (value[3] as u32)
        } else {
            (value[3] as u32) << 24 | (value[2] as u32) << 16 | (value[1] as u32) << 8 | (value[0] as u32)
        }
    }

    /// The text of a string value: of the `size` bytes that were read into
    /// `buffer`, the code units before the terminating zero. There is none
    /// where nothing was read or the size goes beyond the buffer.
    pub fn get_value(buffer: &Vec<u16>, size: u32) -> (r: Option<Vec<u16>>)
        ensures
            match r {
                Some(text) => size >= 1 && (size - 1) / 2 <= buffer.len() && text@ == buffer@.take(
                    (size - 1) / 2,
                ),
                None => size == 0 || (size - 1) / 2 > buffer.len(),
            },
    {
        if size == 0 {
            return None;
        }
        let len: usize = ((size - 1) / 2) as usize;
        if len > buffer.len() {
            return None;
        }
        let mut text: Vec<u16> = Vec::new();
        let mut i: usize = 0;
        while i < len
            invariant
                0 <= i <= len <= buffer.len(),
                text@ == buffer@.take(i as int),
            decreases len - i,
        {
            text.push(buffer[i]);
            proof {
                assert(buffer@.take(i + 1) =~= buffer@.take(i as int).push(buffer@[i as int]));
            }
            i += 1;
        }
        Some(text)
    }
}

/// A task that starts the program at logon.
#[derive(Debug)]
pub struct ScheduleTask {
    name: String,
    exe_path: String,
}

impl ScheduleTask {
    pub closed spec fn name(&self) -> Seq<char> {
        self.name@
    }

    pub closed spec fn exe_path(&self) -> Seq<char> {
        self.exe_path@
    }

    pub fn new(name: &str, exe_path: &str) -> (r: Self)
        ensures
            r.name() == name@,
            r.exe_path() == exe_path@,
    {
        ScheduleTask { name: name.to_owned(), exe_path: exe_path.to_owned() }
    }

    /// The arguments that ask the scheduler whether the task exists.
    pub fn exist_args(&self) -> (r: Vec<String>)
        ensures
            r.deep_view() == seq!["/query"@, "/tn"@, self.name()],
    {
        let mut args: Vec<String> = Vec::new();
        args.push("/query".to_owned());
        args.push("/tn".to_owned());
        args.push(self.name.clone());
        proof {
            assert(args.deep_view() =~= seq!["/query"@, "/tn"@, self.name()]);
        }
        args
    }

    /// The arguments that ask the scheduler to delete the task.
    pub fn delete_args(&self) -> (r: Vec<String>)
        ensures
            r.deep_view() == seq!["/delete"@, "/tn"@, self.name(), "/f"@],
    {
        let mut args: Vec<String> = Vec::new();
        args.push("/delete".to_owned());
        args.push("/tn".to_owned());
        args.push(self.name.clone());
        args.push("/f".to_owned());
        proof {
            assert(args.deep_view() =~= seq!["/delete"@, "/tn"@, self.name(), "/f"@]);
        }
        args
    }

    /// The arguments that ask the scheduler to create the task: run at logon,
    /// with the highest privileges, interactively, replacing an older task.
    pub fn create_args(&self) -> (r: Vec<String>)
        ensures
            r.deep_view() == seq![
                "/create"@,
                "/tn"@,
                self.name(),
                "/tr"@,
                self.exe_path(),
                "/sc"@,
                "onlogon"@,
                "/rl"@,
                "highest"@,
                "/it"@,
                "/f"@,
            ],
    {
        let mut args: Vec<String> = Vec::new();
        args.push("/create".to_owned());
        args.push("/tn".to_owned());
        args.push(self.name.clone());
        args.push("/tr".to_owned());
        args.push(self.exe_path.clone());
        args.push("/sc".to_owned());
        args.push("onlogon".to_owned());
        args.push("/rl".to_owned());
        args.push("highest".to_owned());
        args.push("/it".to_owned());
        args.push("/f".to_owned());
        proof {
            assert(args.deep_view() =~= seq![
                "/create"@,
                "/tn"@,
                self.name(),
                "/tr"@,
                self.exe_path(),
                "/sc"@,
                "onlogon"@,
                "/rl"@,
                "highest"@,
                "/it"@,
                "/f"@,
            ]);
        }
        args
    }
}

/// The path of the program as the task's command: in double quotes where it
/// holds white space.
pub fn command_path(exe_path: &str) -> (r: String)
    ensures
        r@ == if exists|k: int| 0 <= k < exe_path@.len() && spec_is_whitespace(exe_path@[k]) {
            "\""@ + exe_path@ + "\""@
        } else {
            exe_path@
        },
{
    let chars = chars_of(exe_path);
    let mut spaced = false;
    let mut i: usize = 0;
    while i < chars.len() && !spaced
        invariant
            0 <= i <= chars.len(),
            spaced <==> exists|k: int| 0 <= k < i && spec_is_whitespace(chars@[k]),
        decreases chars.len() - i + if spaced { 0int } else { 1int },
    {
        if is_whitespace(chars[i]) {
            spaced = true;
        }
        i += 1;
    }
    if spaced {
        let mut quoted = String::from_str("\"");
        quoted.append(exe_path);
        quoted.append("\"");
        quoted
    } else {
        exe_path.to_owned()
    }
}

/// The decimal digit of a number below ten.
pub open spec fn digit_char(d: nat) -> char
    recommends
        d < 10,
{
    (48u8 + d as u8) as char
}

/// A number in decimal, with zeros before it up to `width` digits.
pub open spec fn padded_decimal(v: nat, width: nat) -> Seq<char>
    decreases v + width,
{
    if v < 10 && width <= 1 {
        seq![digit_char(v)]
    } else {
        padded_decimal(v / 10, if width > 0 { (width - 1) as nat } else { 0 }).push(digit_char(v % 10))
    }
}

/// Appends a number in decimal, with zeros before it up to `width` digits.
pub fn push_padded(text: &mut Vec<char>, v: u16, width: u8)
    ensures
        final(text)@ == old(text)@ + padded_decimal(v as nat, width as nat),
    decreases v + width,
{
    if v < 10 && width <= 1 {
        text.push((48u8 + v as u8) as char);
        proof {
            assert(text@ =~= old(text)@ + padded_decimal(v as nat, width as nat));
        }
    } else {
        push_padded(text, v / 10, if width > 0 { width - 1 } else { 0 });
        let d: u16 = v % 10;
        text.push((48u8 + d as u8) as char);
        proof {
            assert(text@ =~= old(text)@ + padded_decimal(v as nat, width as nat));
        }
    }
}

/// A local time as the task file gives it: `YYYY-MM-DDTHH:MM:SS`.
pub open spec fn spec_task_time(year: u16, month: u16, day: u16, hour: u16, minute: u16, second: u16) -> Seq<
    char,
> {
    padded_decimal(year as nat, 4) + seq!['-'] + padded_decimal(month as nat, 2) + seq!['-']
        + padded_decimal(day as nat, 2) + seq!['T'] + padded_decimal(hour as nat, 2) + seq![':']
        + padded_decimal(minute as nat, 2) + seq![':'] + padded_decimal(second as nat, 2)
}

pub fn get_current_time(year: u16, month: u16, day: u16, hour: u16, minute: u16, second: u16) -> (r:
    String)
    ensures
        r@ == spec_task_time(year, month, day, hour, minute, second),
{
    let mut text: Vec<char> = Vec::new();
    push_padded(&mut text, year, 4);
    text.push('-');
    push_padded(&mut text, month, 2);
    text.push('-');
    push_padded(&mut text, day, 2);
    text.push('T');
    push_padded(&mut text, hour, 2);
    text.push(':');
    push_padded(&mut text, minute, 2);
    text.push(':');
    push_padded(&mut text, second, 2);
    proof {
        assert(text@ =~= spec_task_time(year, month, day, hour, minute, second));
    }
    string_from_chars(&text)
}

/// The length of a tray icon's tooltip, with its terminating zero.
pub const TOOLTIP_LEN: usize = 128;

/// The tooltip of a name: the name cut to fit, then zeros up to the
/// tooltip's length, the last of them the terminator.
pub open spec fn spec_tooltip(name: Seq<u16>) -> Seq<u16> {
    Seq::new(
        TOOLTIP_LEN as nat,
        |i: int|
            if i < name.len() && i < TOOLTIP_LEN - 1 {
                name[i]
            } else {
                0u16
            },
    )
}

pub const NIF_MESSAGE: u32 = 0x1;

pub const NIF_ICON: u32 = 0x2;

pub const NIF_TIP: u32 = 0x4;

/// What the shell is told about the tray icon.
#[derive(Debug)]
pub struct TrayIcon {
    pub hwnd: isize,
    pub uid: u32,
    pub flags: u32,
    pub callback_message: u32,
    pub tooltip: Vec<u16>,
}

impl TrayIcon {
    /// The tray icon of the program called `name`, not yet bound to a window.
    pub fn create(name: &Vec<u16>) -> (r: Self)
        ensures
            r.hwnd == 0,
            r.uid == WM_USER_TRAYICON,
            r.callback_message == WM_USER_TRAYICON,
            r.flags == NIF_ICON | NIF_MESSAGE | NIF_TIP,
            r.tooltip@ == spec_tooltip(name@),
    {
        let mut tooltip: Vec<u16> = Vec::new();
        let mut i: usize = 0;
        while i < TOOLTIP_LEN
            invariant
                0 <= i <= TOOLTIP_LEN,
                tooltip.len() == i,
                forall|k: int| 0 <= k < i ==> tooltip@[k] == spec_tooltip(name@)[k],
            decreases TOOLTIP_LEN - i,
        {
            if i < name.len() && i < TOOLTIP_LEN - 1 {
                tooltip.push(name[i]);
            } else {
                tooltip.push(0);
            }
            i += 1;
        }
        proof {
            assert(tooltip@ =~= spec_tooltip(name@));
        }
        TrayIcon {
            hwnd: 0,
            uid: WM_USER_TRAYICON,
            flags: NIF_ICON | NIF_MESSAGE | NIF_TIP,
            callback_message: WM_USER_TRAYICON,
            tooltip,
        }
    }

    /// Binds the icon to the window that takes its messages.
    pub fn register(&mut self, hwnd: isize)
        ensures
            final(self).hwnd == hwnd,
            final(self).uid == old(self).uid,
            final(self).flags == old(self).flags,
            final(self).callback_message == old(self).callback_message,
            final(self).tooltip@ == old(self).tooltip@,
    {
        self.hwnd = hwnd;
    }
}

/// A mark for a flag that is set.
pub fn pretty_bool(value: bool) -> (r: String)
    ensures
        r@ == if value {
            "*"@
        } else {
            " "@
        },
{
    if value {
        "*".to_owned()
    } else {
        " ".to_owned()
    }
}

/// A letter for a cloak value: the shell's, the application's, an inherited
/// one; a blank for none and a question mark for any other.
pub fn pretty_cloak(value: u32) -> (r: char)
    ensures
        r == if value == 0 {
            ' '
        } else if value == 2 {
            'S'
        } else if value == 1 {
            'A'
        } else if value == 4 {
            'I'
        } else {
            '?'
        },
{
    if value == 0 {
        ' '
    } else if value == 2 {
        'S'
    } else if value == 1 {
        'A'
    } else if value == 4 {
        'I'
    } else {
        '?'
    }
}

/// The task file up to the registration date.
pub const TASK_XML_HEAD: &'static str = "<?xml version=\"1.0\" encoding=\"UTF-16\"?>\n<Task version=\"1.2\" xmlns=\"http://schemas.microsoft.com/windows/2004/02/mit/task\">\n  <RegistrationInfo>\n    <Date>";

/// From the registration date to the author.
pub const TASK_XML_AUTHOR: &'static str = "</Date>\n    <Author>";

/// From the author to the task's name.
pub const TASK_XML_URI: &'static str = "</Author>\n    <URI>\\";

/// From the task's name to the start boundary of its logon trigger.
pub const TASK_XML_TRIGGER: &'static str = "</URI>\n  </RegistrationInfo>\n  <Triggers>\n    <LogonTrigger>\n      <StartBoundary>";

/// From the start boundary to the user id of the principal.
pub const TASK_XML_PRINCIPAL: &'static str = "</StartBoundary>\n      <Enabled>true</Enabled>\n    </LogonTrigger>\n  </Triggers>\n  <Principals>\n    <Principal id=\"Author\">\n      <UserId>";

/// From the user id through the settings to the command.
pub const TASK_XML_SETTINGS: &'static str = "</UserId>\n      <LogonType>InteractiveToken</LogonType>\n      <RunLevel>HighestAvailable</RunLevel>\n    </Principal>\n  </Principals>\n  <Settings>\n    <MultipleInstancesPolicy>IgnoreNew</MultipleInstancesPolicy>\n    <DisallowStartIfOnBatteries>false</DisallowStartIfOnBatteries>\n    <StopIfGoingOnBatteries>true</StopIfGoingOnBatteries>\n    <AllowHardTerminate>true</AllowHardTerminate>\n    <StartWhenAvailable>false</StartWhenAvailable>\n    <RunOnlyIfNetworkAvailable>false</RunOnlyIfNetworkAvailable>\n    <IdleSettings>\n      <StopOnIdleEnd>true</StopOnIdleEnd>\n      <RestartOnIdle>false</RestartOnIdle>\n    </IdleSettings>\n    <AllowStartOnDemand>true</AllowStartOnDemand>\n    <Enabled>true</Enabled>\n    <Hidden>false</Hidden>\n    <RunOnlyIfIdle>false</RunOnlyIfIdle>\n    <WakeToRun>false</WakeToRun>\n    <ExecutionTimeLimit>PT0S</ExecutionTimeLimit>\n    <Priority>7</Priority>\n  </Settings>\n  <Actions Context=\"Author\">\n    <Exec>\n      <Command>";

/// After the command.
pub const TASK_XML_TAIL: &'static str = "</Command>\n    </Exec>\n  </Actions>\n</Task>";

/// The task file of a logon task: the fixed text with the time, the author,
/// the task's name, the time again, the user id and the command in their
/// places.
pub open spec fn spec_task_xml(
    name: Seq<char>,
    command: Seq<char>,
    author: Seq<char>,
    user_id: Seq<char>,
    time: Seq<char>,
) -> Seq<char> {
    TASK_XML_HEAD@ + time + TASK_XML_AUTHOR@ + author + TASK_XML_URI@ + name + TASK_XML_TRIGGER@ + time
        + TASK_XML_PRINCIPAL@ + user_id + TASK_XML_SETTINGS@ + command + TASK_XML_TAIL@
}

/// The task file that starts `exe_path` at logon, with the highest rights
/// that the user has.
pub fn create_task_file(name: &str, exe_path: &str, author: &str, user_id: &str, time: &str) -> (r:
    String)
    ensures
        r@ == spec_task_xml(
            name@,
            if exists|k: int| 0 <= k < exe_path@.len() && spec_is_whitespace(exe_path@[k]) {
                "\""@ + exe_path@ + "\""@
            } else {
                exe_path@
            },
            author@,
            user_id@,
            time@,
        ),
{
    let command = command_path(exe_path);
    let mut text = String::from_str(TASK_XML_HEAD);
    text.append(time);
    text.append(TASK_XML_AUTHOR);
    text.append(author);
    text.append(TASK_XML_URI);
    text.append(name);
    text.append(TASK_XML_TRIGGER);
    text.append(time);
    text.append(TASK_XML_PRINCIPAL);
    text.append(user_id);
    text.append(TASK_XML_SETTINGS);
    text.append(command.as_str());
    text.append(TASK_XML_TAIL);
    text
}

} // verus!
