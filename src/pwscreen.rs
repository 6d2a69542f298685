use vstd::prelude::*;

use crate::event::{Event, Key};
use crate::password_file::{
    EncryptedPasswordFile, PasswordFile, VaultError, authentic, seals, unseal_spec,
};

verus! {

/// What a key event asks of the password buffer.
#[derive(Debug, PartialEq, Eq, Structural, Clone, Copy)]
pub enum Action {
    AppendChar(u8),
    Backspace,
    Clear,
    Submit,
    NoOp,
}

/// Where the password screen stands.
#[derive(Debug, PartialEq, Eq, Structural, Clone, Copy)]
pub enum Phase {
    /// Keys edit the password buffer.
    Collecting,
    /// Enter was pressed; the buffer waits to be tried against the vault.
    Submitted,
    /// The vault opened; the screen is done.
    Unlocked,
}

/// The shift latch after `ev`: set by shift going down, reset by it going up.
pub open spec fn latch_after(shift: bool, ev: Event) -> bool {
    match ev {
        Event::KeyDown(Key::Shift) => true,
        Event::KeyUp(Key::Shift) => false,
        _ => shift,
    }
}

pub open spec fn ascii_upper(c: u8) -> u8 {
    if 0x61 <= c <= 0x7a { (c - 0x20) as u8 } else { c }
}

pub open spec fn append_spec(c: u8, shift: bool) -> Action {
    Action::AppendChar(if shift { ascii_upper(c) } else { c })
}

/// The action of a key event, given the shift latch at the time of the event.
pub open spec fn action_spec(ev: Event, shift: bool) -> Action {
    match ev {
        Event::KeyDown(k) => match k {
            Key::Up => append_spec('u' as u8, shift),
            Key::Down => append_spec('d' as u8, shift),
            Key::Left => append_spec('l' as u8, shift),
            Key::Right => append_spec('r' as u8, shift),
            Key::Center => append_spec('c' as u8, shift),
            Key::Enter => Action::Submit,
            Key::Back => if shift { Action::Clear } else { Action::Backspace },
            Key::Shift => Action::NoOp,
        },
        Event::KeyUp(_) => Action::NoOp,
    }
}

/// The password buffer after `a`. Backspace on an empty buffer changes nothing.
pub open spec fn apply_spec(password: Seq<u8>, a: Action) -> Seq<u8> {
    match a {
        Action::AppendChar(c) => password.push(c),
        Action::Backspace => if password.len() > 0 { password.drop_last() } else { password },
        Action::Clear => Seq::empty(),
        _ => password,
    }
}

fn ascii_upper_exec(c: u8) -> (r: u8)
    ensures
        r == ascii_upper(c),
{
    if 0x61 <= c && c <= 0x7a { c - 0x20 } else { c }
}

fn append_char(c: u8, shift: bool) -> (r: Action)
    ensures
        r == append_spec(c, shift),
{
    if shift {
        Action::AppendChar(ascii_upper_exec(c))
    } else {
        Action::AppendChar(c)
    }
}

impl Action {
    /// The action of `ev` while the shift latch reads `shift`.
    pub fn from_event(ev: Event, shift: bool) -> (r: Action)
        ensures
            r == action_spec(ev, shift),
    {
        match ev {
            Event::KeyDown(k) => match k {
                Key::Up => append_char('u' as u8, shift),
                Key::Down => append_char('d' as u8, shift),
                Key::Left => append_char('l' as u8, shift),
                Key::Right => append_char('r' as u8, shift),
                Key::Center => append_char('c' as u8, shift),
                Key::Enter => Action::Submit,
                Key::Back => if shift {
                    Action::Clear
                } else {
                    Action::Backspace
                },
                Key::Shift => Action::NoOp,
            },
            Event::KeyUp(_) => Action::NoOp,
        }
    }
}

impl From<(Event, bool)> for Action {
    /// The action of an event paired with the shift latch.
    fn from(value: (Event, bool)) -> (r: Action) {
        Action::from_event(value.0, value.1)
    }
}

impl vstd::std_specs::convert::FromSpecImpl<(Event, bool)> for Action {
    open spec fn obeys_from_spec() -> bool {
        true
    }

    open spec fn from_spec(v: (Event, bool)) -> Action {
        action_spec(v.0, v.1)
    }
}

/// The state of the password screen as a value.
pub struct ScreenView {
    pub password: Seq<u8>,
    pub shift: bool,
    pub phase: Phase,
}

/// The screen after one key event. The event's action is taken with the
/// latch as the event leaves it. Clearing empties the buffer in every phase
/// (a submitted buffer is withdrawn and collecting starts again). The other
/// actions edit the buffer, and Enter submits it, only while collecting; in
/// the other phases only the latch follows the keys.
pub open spec fn step_spec(s: ScreenView, ev: Event) -> ScreenView {
    let shift = latch_after(s.shift, ev);
    let a = action_spec(ev, shift);
    if a == Action::Clear {
        ScreenView {
            password: Seq::empty(),
            shift,
            phase: if s.phase == Phase::Submitted { Phase::Collecting } else { s.phase },
        }
    } else if s.phase != Phase::Collecting {
        ScreenView { password: s.password, shift, phase: s.phase }
    } else {
        if a == Action::Submit {
            ScreenView { password: s.password, shift, phase: Phase::Submitted }
        } else {
            ScreenView { password: apply_spec(s.password, a), shift, phase: Phase::Collecting }
        }
    }
}

/// The password-entry screen: collects the master password from key events
/// and tries it against the sealed vault.
pub struct PasswordScreen {
    password: Vec<u8>,
    shift: bool,
    phase: Phase,
}

impl View for PasswordScreen {
    type V = ScreenView;

    closed spec fn view(&self) -> ScreenView {
        ScreenView { password: self.password@, shift: self.shift, phase: self.phase }
    }
}

impl PasswordScreen {
    /// An empty buffer, shift released, collecting.
    pub fn new() -> (r: PasswordScreen)
        ensures
            r@.password == Seq::<u8>::empty(),
            !r@.shift,
            r@.phase == Phase::Collecting,
    {
        PasswordScreen { password: Vec::new(), shift: false, phase: Phase::Collecting }
    }

    pub fn password(&self) -> (r: &[u8])
        ensures
            r@ == self@.password,
    {
        self.password.as_slice()
    }

    /// How many placeholder glyphs the masked password shows.
    pub fn password_len(&self) -> (r: usize)
        ensures
            r == self@.password.len(),
    {
        self.password.len()
    }

    pub fn shift(&self) -> (r: bool)
        ensures
            r == self@.shift,
    {
        self.shift
    }

    pub fn phase(&self) -> (r: Phase)
        ensures
            r == self@.phase,
    {
        self.phase
    }

    /// Overwrites the buffer with zeros, then empties it. Every path that
    /// leaves the screen, cancellation included, ends here.
    pub fn wipe_password(&mut self)
        ensures
            final(self)@.password == Seq::<u8>::empty(),
            final(self)@.shift == old(self)@.shift,
            final(self)@.phase == old(self)@.phase,
    {
        let n = self.password.len();
        let mut i: usize = 0;
        while i < n
            invariant
                i <= n,
                self.password@.len() == n,
                self.shift == old(self).shift,
                self.phase == old(self).phase,
            decreases n - i,
        {
            self.password[i] = 0;
            i = i + 1;
        }
        self.password.clear();
    }

    /// Appends a byte. The bytes move to a fresh buffer with room to spare
    /// and the old one is wiped, so that growing leaves no copy behind.
    fn append_secret(&mut self, c: u8)
        ensures
            final(self)@.password == old(self)@.password.push(c),
            final(self)@.shift == old(self)@.shift,
            final(self)@.phase == old(self)@.phase,
    {
        let n = self.password.len();
        let cap = match n.checked_add(16) {
            Some(cap) => cap,
            None => n,
        };
        let mut grown: Vec<u8> = Vec::with_capacity(cap);
        let mut i: usize = 0;
        while i < n
            invariant
                i <= n,
                n == self.password@.len(),
                grown@ == self.password@.take(i as int),
            decreases n - i,
        {
            grown.push(self.password[i]);
            i = i + 1;
            assert(grown@ =~= self.password@.take(i as int));
        }
        assert(self.password@.take(n as int) =~= self.password@);
        grown.push(c);
        self.wipe_password();
        self.password = grown;
    }

    /// Takes one key event: updates the shift latch, then, while collecting,
    /// applies the event's action to the buffer. Returns the action.
    pub fn handle_event(&mut self, ev: Event) -> (a: Action)
        ensures
            a == action_spec(ev, latch_after(old(self)@.shift, ev)),
            final(self)@ == step_spec(old(self)@, ev),
    {
        match ev {
            Event::KeyDown(Key::Shift) => {
                self.shift = true;
            },
            Event::KeyUp(Key::Shift) => {
                self.shift = false;
            },
            _ => {},
        }
        let action = Action::from_event(ev, self.shift);
        if action == Action::Clear {
            self.wipe_password();
            if self.phase == Phase::Submitted {
                self.phase = Phase::Collecting;
            }
        } else if self.phase == Phase::Collecting {
            match action {
                Action::AppendChar(c) => {
                    self.append_secret(c);
                },
                Action::Backspace => {
                    let n = self.password.len();
                    if n > 0 {
                        self.password[n - 1] = 0;
                        self.password.pop();
                        assert(self.password@ =~= old(self).password@.drop_last());
                    }
                },
                Action::Clear => {
                    self.wipe_password();
                },
                Action::Submit => {
                    self.phase = Phase::Submitted;
                },
                Action::NoOp => {},
            }
        }
        action
    }

    /// Tries the buffered password against the vault: the result is that
    /// of opening the vault with it. The buffer is wiped on every path. On
    /// success the screen is done; on failure (a rejected password among
    /// them) the screen collects again from an empty buffer.
    pub fn unlock(&mut self, vault: &EncryptedPasswordFile) -> (r: Result<PasswordFile, VaultError>)
        ensures
            final(self)@.password == Seq::<u8>::empty(),
            final(self)@.shift == old(self)@.shift,
            r is Ok ==> final(self)@.phase == Phase::Unlocked,
            r is Err ==> final(self)@.phase == Phase::Collecting,
            r is Ok <==> unseal_spec(vault@, old(self)@.password) is Ok,
            r is Ok ==> r->Ok_0@ == unseal_spec(vault@, old(self)@.password)->Ok_0,
            r is Err ==> r->Err_0 == unseal_spec(vault@, old(self)@.password)->Err_0,
            r matches Err(VaultError::AuthenticationFailure) <==> !authentic(
                vault@,
                old(self)@.password,
            ),
            forall|es: Seq<(Seq<char>, Seq<char>)>| #[trigger] seals(vault@, old(self)@.password, es)
                ==> r is Ok && r->Ok_0@ == es,
    {
        let result = vault.decrypt(self.password.as_slice());
        self.wipe_password();
        match result {
            Ok(file) => {
                self.phase = Phase::Unlocked;
                Ok(file)
            },
            Err(e) => {
                self.phase = Phase::Collecting;
                Err(e)
            },
        }
    }
}

/// Backspace on an empty buffer leaves it empty, shift latched or not.
pub proof fn lemma_backspace_empty(s: ScreenView)
    requires
        s.password.len() == 0,
    ensures
        step_spec(s, Event::KeyDown(Key::Back)).password == Seq::<u8>::empty(),
{
    assert(s.password =~= Seq::<u8>::empty());
}

/// Back pressed while shift is latched empties the whole buffer in one step.
pub proof fn lemma_clear_with_shift(s: ScreenView)
    requires
        s.shift,
    ensures
        step_spec(s, Event::KeyDown(Key::Back)).password == Seq::<u8>::empty(),
{
}

} // verus!
