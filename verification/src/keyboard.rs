//! The hotkey input interpreter: what each key event does to the modifier
//! state of the bindings, which command it gives rise to, and whether the
//! event is kept from the rest of the system.
use crate::config::{Hotkey, HotkeyModel, SWITCH_APPS_HOTKEY_ID};
use vstd::prelude::*;

verus! {

pub const SCANCODE_LSHIFT: u32 = 0x2a;

pub const SCANCODE_RSHIFT: u32 = 0x36;

/// The key that cancels an open picker.
pub const SCANCODE_ESCAPE: u32 = 0x01;

/// What the control loop is asked to do.
#[derive(Clone, Copy, Debug, PartialEq, Eq, Structural)]
pub enum Command {
    /// The accelerator of a binding was pressed while its modifier was held.
    GestureStep { binding_id: u32, reverse: bool },
    /// The modifier of a binding was released after its accelerator was pressed.
    GestureFinished { binding_id: u32 },
    /// The cancel key was pressed while the picker was open.
    GestureCancel,
    /// Another window has come to the foreground.
    FocusChanged,
}

/// One binding with the state of its modifier.
pub struct HotKeyState {
    pub hotkey: Hotkey,
    /// Whether the modifier is held.
    pub is_modifier_pressed: bool,
    /// Whether the accelerator is honoured; a binding that is switched off
    /// lets its accelerator pass.
    pub enabled: bool,
}

/// The mathematical content of a `HotKeyState`.
pub struct BindingModel {
    pub hotkey: HotkeyModel,
    pub pressed: bool,
    pub enabled: bool,
}

impl View for HotKeyState {
    type V = BindingModel;

    open spec fn view(&self) -> BindingModel {
        BindingModel { hotkey: self.hotkey@, pressed: self.is_modifier_pressed, enabled: self.enabled }
    }
}

/// The interpreter's state.
pub struct KeyboardListener {
    pub states: Vec<HotKeyState>,
    /// Whether a shift key is held.
    pub is_shift_pressed: bool,
    /// The scan code of the last key event that was consumed.
    pub previous_keycode: u32,
    /// Whether the picker of the switch-apps binding is open.
    pub picker_active: bool,
}

/// The mathematical content of a `KeyboardListener`.
pub struct ListenerModel {
    pub bindings: Seq<BindingModel>,
    pub shift: bool,
    pub previous: u32,
    pub picker: bool,
}

impl View for KeyboardListener {
    type V = ListenerModel;

    open spec fn view(&self) -> ListenerModel {
        ListenerModel {
            bindings: Seq::new(self.states@.len(), |i: int| self.states@[i]@),
            shift: self.is_shift_pressed,
            previous: self.previous_keycode,
            picker: self.picker_active,
        }
    }
}

/// What the interpreter decides on one key event.
pub struct KeyOutcome {
    /// The commands to post to the control loop, in order.
    pub commands: Vec<Command>,
    /// Whether the event is consumed; if not, it is passed on unchanged.
    pub consumed: bool,
}

/// Whether `scan_code` is a key of the binding's modifier.
pub open spec fn is_modifier_of(b: BindingModel, scan_code: u32) -> bool {
    scan_code == b.hotkey.modifier.0 || scan_code == b.hotkey.modifier.1
}

/// Whether `scan_code` is a modifier key of one of the first `n` bindings.
pub open spec fn is_modifier_key(bindings: Seq<BindingModel>, scan_code: u32, n: int) -> bool {
    exists|i: int| 0 <= i < n && is_modifier_of(#[trigger] bindings[i], scan_code)
}

/// A binding after an event on a modifier key: where the key is the binding's
/// modifier, the modifier is held exactly if the key went down.
pub open spec fn modifier_updated(b: BindingModel, scan_code: u32, pressed: bool) -> BindingModel {
    if is_modifier_of(b, scan_code) {
        BindingModel { hotkey: b.hotkey, pressed, enabled: b.enabled }
    } else {
        b
    }
}

/// The bindings after an event on a modifier key.
pub open spec fn modifiers_updated(bindings: Seq<BindingModel>, scan_code: u32, pressed: bool) -> Seq<
    BindingModel,
> {
    Seq::new(bindings.len(), |i: int| modifier_updated(bindings[i], scan_code, pressed))
}

/// The commands that the release of a modifier key gives rise to among the
/// first `n` bindings: a finish for each binding that has the key as its
/// modifier and whose accelerator was the last key consumed.
pub open spec fn finished_commands(bindings: Seq<BindingModel>, scan_code: u32, previous: u32, n: int) -> Seq<
    Command,
>
    decreases n,
{
    if n <= 0 {
        Seq::empty()
    } else {
        let head = finished_commands(bindings, scan_code, previous, n - 1);
        let b = bindings[n - 1];
        if is_modifier_of(b, scan_code) && previous == b.hotkey.code {
            head.push(Command::GestureFinished { binding_id: b.hotkey.id })
        } else {
            head
        }
    }
}

/// The answer of one binding to a key that went down and is no modifier: a
/// step where the key is the accelerator of an enabled binding whose modifier
/// is held; a cancel where the key is the cancel key, the binding is the
/// switch-apps binding with its modifier held, and the picker is open.
pub open spec fn binding_response(b: BindingModel, scan_code: u32, shift: bool, picker: bool) -> Option<
    Command,
> {
    if !b.pressed {
        None
    } else if scan_code == b.hotkey.code {
        if b.enabled {
            Some(Command::GestureStep { binding_id: b.hotkey.id, reverse: shift })
        } else {
            None
        }
    } else if scan_code == SCANCODE_ESCAPE && b.hotkey.id == SWITCH_APPS_HOTKEY_ID && picker {
        Some(Command::GestureCancel)
    } else {
        None
    }
}

/// The answer of the first binding, from position `from` on, that has one.
pub open spec fn first_response(
    bindings: Seq<BindingModel>,
    scan_code: u32,
    shift: bool,
    picker: bool,
    from: int,
) -> Option<Command>
    decreases bindings.len() - from,
{
    if from < 0 || from >= bindings.len() {
        None
    } else {
        match binding_response(bindings[from], scan_code, shift, picker) {
            Some(c) => Some(c),
            None => first_response(bindings, scan_code, shift, picker, from + 1),
        }
    }
}

/// Whether the picker is open after a command was given.
pub open spec fn picker_after(picker: bool, command: Command) -> bool {
    match command {
        Command::GestureStep { binding_id, reverse } => picker || binding_id == SWITCH_APPS_HOTKEY_ID,
        Command::GestureFinished { binding_id } => picker && binding_id != SWITCH_APPS_HOTKEY_ID,
        Command::GestureCancel => false,
        Command::FocusChanged => picker,
    }
}

/// Whether the picker is open after the first `n` of the commands were given.
pub open spec fn picker_after_all(picker: bool, commands: Seq<Command>, n: int) -> bool
    decreases n,
{
    if n <= 0 {
        picker
    } else {
        picker_after(picker_after_all(picker, commands, n - 1), commands[n - 1])
    }
}

/// The whole answer to one key event: the state afterwards, the commands, and
/// whether the event is consumed.
///
/// An event on a shift key sets the shift flag. An event on the modifier key
/// of a binding sets the modifier state of every such binding, gives a finish
/// on release for each binding whose accelerator was consumed last, and is
/// never consumed. Any other key that goes down is answered by the first
/// binding that has an answer, and is consumed if there is one. All else is
/// passed on.
pub open spec fn spec_on_key(m: ListenerModel, scan_code: u32, pressed: bool) -> (
    ListenerModel,
    Seq<Command>,
    bool,
) {
    let shift = if scan_code == SCANCODE_LSHIFT || scan_code == SCANCODE_RSHIFT {
        pressed
    } else {
        m.shift
    };
    if is_modifier_key(m.bindings, scan_code, m.bindings.len() as int) {
        let commands = if pressed {
            Seq::empty()
        } else {
            finished_commands(m.bindings, scan_code, m.previous, m.bindings.len() as int)
        };
        (
            ListenerModel {
                bindings: modifiers_updated(m.bindings, scan_code, pressed),
                shift,
                previous: m.previous,
                picker: picker_after_all(m.picker, commands, commands.len() as int),
            },
            commands,
            false,
        )
    } else if pressed {
        match first_response(m.bindings, scan_code, shift, m.picker, 0) {
            Some(c) => (
                ListenerModel {
                    bindings: m.bindings,
                    shift,
                    previous: scan_code,
                    picker: picker_after(m.picker, c),
                },
                seq![c],
                true,
            ),
            None => (
                ListenerModel { bindings: m.bindings, shift, previous: m.previous, picker: m.picker },
                Seq::empty(),
                false,
            ),
        }
    } else {
        (
            ListenerModel { bindings: m.bindings, shift, previous: m.previous, picker: m.picker },
            Seq::empty(),
            false,
        )
    }
}

/// Whether a binding has an interest in a key that is not its modifier: its
/// modifier is held, and the key is its accelerator or the cancel key.
pub open spec fn binding_listens(b: BindingModel, scan_code: u32) -> bool {
    b.pressed && (scan_code == b.hotkey.code || scan_code == SCANCODE_ESCAPE)
}

/// No binding answers from position `from` on where none has an interest.
pub proof fn lemma_no_interest_no_response(
    bindings: Seq<BindingModel>,
    scan_code: u32,
    shift: bool,
    picker: bool,
    from: int,
)
    requires
        forall|i: int| 0 <= i < bindings.len() ==> !binding_listens(#[trigger] bindings[i], scan_code),
    ensures
        first_response(bindings, scan_code, shift, picker, from) is None,
    decreases bindings.len() - from,
{
    if 0 <= from < bindings.len() {
        assert(!binding_listens(bindings[from], scan_code));
        lemma_no_interest_no_response(bindings, scan_code, shift, picker, from + 1);
    }
}

/// Keys in which no binding has an interest pass: an event on a key that is
/// no binding's modifier, and neither the accelerator of a binding whose
/// modifier is held nor the cancel key while one is held, is not consumed,
/// gives no command, and changes nothing but the shift flag.
pub proof fn law_unrelated_keys_pass(m: ListenerModel, scan_code: u32, pressed: bool)
    requires
        !is_modifier_key(m.bindings, scan_code, m.bindings.len() as int),
        forall|i: int|
            0 <= i < m.bindings.len() ==> !binding_listens(#[trigger] m.bindings[i], scan_code),
    ensures
        !spec_on_key(m, scan_code, pressed).2,
        spec_on_key(m, scan_code, pressed).1 == Seq::<Command>::empty(),
        spec_on_key(m, scan_code, pressed).0.bindings == m.bindings,
        spec_on_key(m, scan_code, pressed).0.previous == m.previous,
        spec_on_key(m, scan_code, pressed).0.picker == m.picker,
{
    let shift = if scan_code == SCANCODE_LSHIFT || scan_code == SCANCODE_RSHIFT {
        pressed
    } else {
        m.shift
    };
    lemma_no_interest_no_response(m.bindings, scan_code, shift, m.picker, 0);
}

/// A consumed event gives exactly one command, and only a key that went down
/// and is no binding's modifier is ever consumed.
pub proof fn law_consumed_gives_one_command(m: ListenerModel, scan_code: u32, pressed: bool)
    requires
        spec_on_key(m, scan_code, pressed).2,
    ensures
        spec_on_key(m, scan_code, pressed).1.len() == 1,
        pressed,
        !is_modifier_key(m.bindings, scan_code, m.bindings.len() as int),
{
}

impl KeyboardListener {
    /// The interpreter for these bindings: no modifier held, every binding
    /// enabled, no picker open.
    pub fn init(hotkeys: &Vec<Hotkey>) -> (r: Self)
        ensures
            r@.bindings.len() == hotkeys.len(),
            forall|i: int|
                0 <= i < hotkeys.len() ==> #[trigger] r@.bindings[i] == (BindingModel {
                    hotkey: hotkeys@[i]@,
                    pressed: false,
                    enabled: true,
                }),
            !r@.shift,
            r@.previous == 0,
            !r@.picker,
    {
        let mut states: Vec<HotKeyState> = Vec::new();
        let mut i: usize = 0;
        while i < hotkeys.len()
            invariant
                0 <= i <= hotkeys.len(),
                states.len() == i,
                forall|k: int|
                    0 <= k < i ==> (#[trigger] states@[k])@ == (BindingModel {
                        hotkey: hotkeys@[k]@,
                        pressed: false,
                        enabled: true,
                    }),
            decreases hotkeys.len() - i,
        {
            states.push(
                HotKeyState { hotkey: hotkeys[i].clone(), is_modifier_pressed: false, enabled: true },
            );
            i += 1;
        }
        KeyboardListener { states, is_shift_pressed: false, previous_keycode: 0, picker_active: false }
    }

    /// Switches the bindings with this id on or off.
    pub fn set_enabled(&mut self, binding_id: u32, enabled: bool)
        ensures
            final(self)@.bindings.len() == old(self)@.bindings.len(),
            forall|i: int|
                0 <= i < old(self)@.bindings.len() ==> #[trigger] final(self)@.bindings[i] == if old(
                    self,
                )@.bindings[i].hotkey.id == binding_id {
                    BindingModel {
                        hotkey: old(self)@.bindings[i].hotkey,
                        pressed: old(self)@.bindings[i].pressed,
                        enabled,
                    }
                } else {
                    old(self)@.bindings[i]
                },
            final(self)@.shift == old(self)@.shift,
            final(self)@.previous == old(self)@.previous,
            final(self)@.picker == old(self)@.picker,
    {
        let n = self.states.len();
        let mut i: usize = 0;
        while i < n
            invariant
                0 <= i <= n,
                n == self.states.len(),
                n == old(self).states.len(),
                self.is_shift_pressed == old(self).is_shift_pressed,
                self.previous_keycode == old(self).previous_keycode,
                self.picker_active == old(self).picker_active,
                forall|k: int| i <= k < n ==> self.states@[k] == old(self).states@[k],
                forall|k: int|
                    0 <= k < i ==> (#[trigger] self.states@[k])@ == if old(self).states@[k]@.hotkey.id
                        == binding_id {
                        BindingModel {
                            hotkey: old(self).states@[k]@.hotkey,
                            pressed: old(self).states@[k]@.pressed,
                            enabled,
                        }
                    } else {
                        old(self).states@[k]@
                    },
            decreases n - i,
        {
            if self.states[i].hotkey.id == binding_id {
                self.states[i].enabled = enabled;
            }
            i += 1;
        }
    }

    /// Whether `scan_code` is a modifier key of one of the bindings.
    pub fn is_modifier_key(&self, scan_code: u32) -> (r: bool)
        ensures
            r == is_modifier_key(self@.bindings, scan_code, self@.bindings.len() as int),
    {
        let mut i: usize = 0;
        while i < self.states.len()
            invariant
                0 <= i <= self.states.len(),
                !is_modifier_key(self@.bindings, scan_code, i as int),
            decreases self.states.len() - i,
        {
            if self.states[i].hotkey.is_modifier(scan_code) {
                assert(is_modifier_of(self@.bindings[i as int], scan_code));
                return true;
            }
            i += 1;
        }
        false
    }

    /// Takes one key event: the scan code, and whether the key went down.
    pub fn on_key(&mut self, scan_code: u32, pressed: bool) -> (r: KeyOutcome)
        ensures
            (final(self)@, r.commands@, r.consumed) == spec_on_key(old(self)@, scan_code, pressed),
    {
        let ghost m = self@;
        if scan_code == SCANCODE_LSHIFT || scan_code == SCANCODE_RSHIFT {
            self.is_shift_pressed = pressed;
        }
        let n = self.states.len();
        let mut commands: Vec<Command> = Vec::new();
        if self.is_modifier_key(scan_code) {
            let mut picker = self.picker_active;
            let mut i: usize = 0;
            while i < n
                invariant
                    0 <= i <= n,
                    n == self.states.len(),
                    n == m.bindings.len(),
                    self.previous_keycode == m.previous,
                    self.is_shift_pressed == old(self)@.shift || self.is_shift_pressed == pressed,
                    self.is_shift_pressed == spec_on_key(m, scan_code, pressed).0.shift,
                    forall|k: int| i <= k < n ==> (#[trigger] self.states@[k])@ == m.bindings[k],
                    forall|k: int|
                        0 <= k < i ==> (#[trigger] self.states@[k])@ == modifier_updated(
                            m.bindings[k],
                            scan_code,
                            pressed,
                        ),
                    commands@ == if pressed {
                        Seq::<Command>::empty()
                    } else {
                        finished_commands(m.bindings, scan_code, m.previous, i as int)
                    },
                    picker == picker_after_all(m.picker, commands@, commands@.len() as int),
                decreases n - i,
            {
                if self.states[i].hotkey.is_modifier(scan_code) {
                    self.states[i].is_modifier_pressed = pressed;
                    if !pressed && self.previous_keycode == self.states[i].hotkey.code {
                        let command = Command::GestureFinished { binding_id: self.states[i].hotkey.id };
                        let ghost before = commands@;
                        commands.push(command);
                        proof {
                            lemma_picker_after_push(m.picker, before, command);
                        }
                        picker = picker && self.states[i].hotkey.id != SWITCH_APPS_HOTKEY_ID;
                    }
                }
                i += 1;
            }
            self.picker_active = picker;
            proof {
                assert(self@.bindings =~= modifiers_updated(m.bindings, scan_code, pressed));
            }
            return KeyOutcome { commands, consumed: false };
        }
        proof {
            assert(self@.bindings =~= m.bindings);
        }
        if !pressed {
            return KeyOutcome { commands, consumed: false };
        }
        let shift = self.is_shift_pressed;
        let mut i: usize = 0;
        while i < n
            invariant
                0 <= i <= n,
                n == self.states.len(),
                self@.bindings == m.bindings,
                m == old(self)@,
                commands@ == Seq::<Command>::empty(),
                self.picker_active == m.picker,
                self.previous_keycode == m.previous,
                self.is_shift_pressed == shift,
                shift == if scan_code == SCANCODE_LSHIFT || scan_code == SCANCODE_RSHIFT {
                    pressed
                } else {
                    m.shift
                },
                !is_modifier_key(m.bindings, scan_code, m.bindings.len() as int),
                pressed,
                first_response(m.bindings, scan_code, shift, m.picker, i as int) == first_response(
                    m.bindings,
                    scan_code,
                    shift,
                    m.picker,
                    0,
                ),
            decreases n - i,
        {
            let state = &self.states[i];
            let mut answer: Option<Command> = None;
            if state.is_modifier_pressed {
                if scan_code == state.hotkey.code {
                    if state.enabled {
                        answer = Some(Command::GestureStep { binding_id: state.hotkey.id, reverse: shift });
                    }
                } else if scan_code == SCANCODE_ESCAPE && state.hotkey.id == SWITCH_APPS_HOTKEY_ID
                    && self.picker_active {
                    answer = Some(Command::GestureCancel);
                }
            }
            assert(answer == binding_response(m.bindings[i as int], scan_code, shift, self.picker_active));
            match answer {
                Some(command) => {
                    self.picker_active = match command {
                        Command::GestureStep { binding_id, reverse } => self.picker_active || binding_id
                            == SWITCH_APPS_HOTKEY_ID,
                        Command::GestureCancel => false,
                        _ => self.picker_active,
                    };
                    self.previous_keycode = scan_code;
                    commands.push(command);
                    proof {
                        assert(commands@ =~= seq![command]);
                        assert(self@.bindings =~= m.bindings);
                        assert(first_response(m.bindings, scan_code, shift, m.picker, i as int) == Some(
                            command,
                        ));
                        assert(self.picker_active == picker_after(m.picker, command));
                    }
                    return KeyOutcome { commands, consumed: true };
                },
                None => {},
            }
            i += 1;
        }
        KeyOutcome { commands, consumed: false }
    }
}

/// The picker state after one more command.
pub proof fn lemma_picker_after_push(picker: bool, commands: Seq<Command>, command: Command)
    ensures
        picker_after_all(picker, commands.push(command), (commands.len() + 1) as int) == picker_after(
            picker_after_all(picker, commands, commands.len() as int),
            command,
        ),
{
    lemma_picker_prefix(picker, commands, commands.push(command), commands.len() as int);
}

/// The picker state after the first `n` commands depends on those alone.
pub proof fn lemma_picker_prefix(picker: bool, a: Seq<Command>, b: Seq<Command>, n: int)
    requires
        0 <= n <= a.len(),
        n <= b.len(),
        forall|k: int| 0 <= k < n ==> a[k] == b[k],
    ensures
        picker_after_all(picker, a, n) == picker_after_all(picker, b, n),
    decreases n,
{
    if n > 0 {
        lemma_picker_prefix(picker, a, b, n - 1);
    }
}

} // verus!
