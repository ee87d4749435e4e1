//! The profile picker's state machine: choosing, unlocking, deleting and
//! adding profiles. Each message moves the picker to its next state and
//! names the outside work to do (loading the profile list, removing a
//! profile, opening one); the caller does that work and hands back the
//! result.

use vstd::prelude::*;

use crate::ui::Input;

verus! {

/// What the picker shows.
#[derive(Debug)]
pub enum PickerState {
    SelectProfile(Vec<String>),
    UnlockProfile { profile: String, password: String },
    Loading,
    AddProfile { host: String },
    RegisterRoot { host: String, username: String, password: String, confirm_password: String },
}

/// A message to the picker.
#[derive(Debug)]
pub enum PickerMessage {
    Input(Input),
    Reset,
    SelectProfile(String),
    DeleteProfile(String),
    ConfirmDelete(String),
    CalcelDelete,
    UnlockProfile,
    AddProfile,
    Connect(String),
}

/// The outside work a step asks for.
#[derive(Debug)]
pub enum PickerAction {
    Nothing,
    /// Load the profile list and hand it to `profiles_loaded`.
    LoadProfiles,
    RemoveProfile(String),
    OpenProfile { profile: String, password: String },
}

/// The picker's state as the library reads it.
pub enum StateView {
    SelectProfile(Seq<Seq<char>>),
    UnlockProfile { profile: Seq<char>, password: Seq<char> },
    Loading,
    AddProfile { host: Seq<char> },
    RegisterRoot { host: Seq<char>, username: Seq<char>, password: Seq<char>, confirm_password: Seq<char> },
}

/// A message as the library reads it.
pub enum MessageView {
    Host(Seq<char>),
    Username(Seq<char>),
    Password(Seq<char>),
    ConfirmPassword(Seq<char>),
    Reset,
    SelectProfile(Seq<char>),
    DeleteProfile(Seq<char>),
    ConfirmDelete(Seq<char>),
    CalcelDelete,
    UnlockProfile,
    AddProfile,
    Connect(Seq<char>),
}

/// An action as the library reads it.
pub enum ActionView {
    Nothing,
    LoadProfiles,
    RemoveProfile(Seq<char>),
    OpenProfile { profile: Seq<char>, password: Seq<char> },
}

pub open spec fn string_views(v: Seq<String>) -> Seq<Seq<char>> {
    v.map_values(|s: String| s@)
}

impl View for PickerState {
    type V = StateView;

    open spec fn view(&self) -> StateView {
        match self {
            PickerState::SelectProfile(p) => StateView::SelectProfile(string_views(p@)),
            PickerState::UnlockProfile { profile, password } => StateView::UnlockProfile { profile: profile@, password: password@ },
            PickerState::Loading => StateView::Loading,
            PickerState::AddProfile { host } => StateView::AddProfile { host: host@ },
            PickerState::RegisterRoot { host, username, password, confirm_password } => StateView::RegisterRoot {
                host: host@,
                username: username@,
                password: password@,
                confirm_password: confirm_password@,
            },
        }
    }
}

impl View for PickerMessage {
    type V = MessageView;

    open spec fn view(&self) -> MessageView {
        match self {
            PickerMessage::Input(Input::Host(s)) => MessageView::Host(s@),
            PickerMessage::Input(Input::Username(s)) => MessageView::Username(s@),
            PickerMessage::Input(Input::Password(s)) => MessageView::Password(s@),
            PickerMessage::Input(Input::ConfirmPassword(s)) => MessageView::ConfirmPassword(s@),
            PickerMessage::Reset => MessageView::Reset,
            PickerMessage::SelectProfile(s) => MessageView::SelectProfile(s@),
            PickerMessage::DeleteProfile(s) => MessageView::DeleteProfile(s@),
            PickerMessage::ConfirmDelete(s) => MessageView::ConfirmDelete(s@),
            PickerMessage::CalcelDelete => MessageView::CalcelDelete,
            PickerMessage::UnlockProfile => MessageView::UnlockProfile,
            PickerMessage::AddProfile => MessageView::AddProfile,
            PickerMessage::Connect(s) => MessageView::Connect(s@),
        }
    }
}

impl View for PickerAction {
    type V = ActionView;

    open spec fn view(&self) -> ActionView {
        match self {
            PickerAction::Nothing => ActionView::Nothing,
            PickerAction::LoadProfiles => ActionView::LoadProfiles,
            PickerAction::RemoveProfile(s) => ActionView::RemoveProfile(s@),
            PickerAction::OpenProfile { profile, password } => ActionView::OpenProfile { profile: profile@, password: password@ },
        }
    }
}

/// Whether a message fits the state: a text input only edits a form that
/// has that field (the host of a new profile, or any field of the root
/// registration).
pub open spec fn message_fits(s: StateView, m: MessageView) -> bool {
    match m {
        MessageView::Host(_) => s is AddProfile || s is RegisterRoot,
        MessageView::Username(_) | MessageView::Password(_) | MessageView::ConfirmPassword(_) => s is RegisterRoot,
        _ => true,
    }
}

/// The state after a message; the profile list of `Reset` is what
/// `profiles_loaded` hands in afterwards.
pub open spec fn spec_next_state(s: StateView, m: MessageView) -> StateView {
    match m {
        MessageView::SelectProfile(profile) => StateView::UnlockProfile { profile, password: seq![] },
        MessageView::UnlockProfile => if s is UnlockProfile {
            StateView::Loading
        } else {
            s
        },
        MessageView::AddProfile => StateView::AddProfile { host: seq![] },
        MessageView::Connect(host) => StateView::RegisterRoot {
            host,
            username: seq![],
            password: seq![],
            confirm_password: seq![],
        },
        MessageView::Host(v) => match s {
            StateView::AddProfile { .. } => StateView::AddProfile { host: v },
            StateView::RegisterRoot { host, username, password, confirm_password } => StateView::RegisterRoot {
                host: v,
                username,
                password,
                confirm_password,
            },
            _ => s,
        },
        MessageView::Username(v) => match s {
            StateView::RegisterRoot { host, username, password, confirm_password } => StateView::RegisterRoot {
                host,
                username: v,
                password,
                confirm_password,
            },
            _ => s,
        },
        MessageView::Password(v) => match s {
            StateView::RegisterRoot { host, username, password, confirm_password } => StateView::RegisterRoot {
                host,
                username,
                password: v,
                confirm_password,
            },
            _ => s,
        },
        MessageView::ConfirmPassword(v) => match s {
            StateView::RegisterRoot { host, username, password, confirm_password } => StateView::RegisterRoot {
                host,
                username,
                password,
                confirm_password: v,
            },
            _ => s,
        },
        _ => s,
    }
}

/// The profile awaiting confirmation of its deletion after a message.
pub open spec fn spec_next_confirm(c: Option<Seq<char>>, m: MessageView) -> Option<Seq<char>> {
    match m {
        MessageView::DeleteProfile(profile) => Some(profile),
        MessageView::ConfirmDelete(_) | MessageView::CalcelDelete => None,
        _ => c,
    }
}

/// The outside work a message asks for.
pub open spec fn spec_action(s: StateView, m: MessageView) -> ActionView {
    match m {
        MessageView::Reset => ActionView::LoadProfiles,
        MessageView::ConfirmDelete(profile) => ActionView::RemoveProfile(profile),
        MessageView::UnlockProfile => match s {
            StateView::UnlockProfile { profile, password } => ActionView::OpenProfile { profile, password },
            _ => ActionView::Nothing,
        },
        _ => ActionView::Nothing,
    }
}

/// What each message does to the picker: choosing a profile asks for its
/// password; unlocking opens the chosen profile with the password typed;
/// adding a profile starts with an empty host; connecting to a host starts
/// the root registration for that host with empty fields; each text input
/// sets its own field and leaves the others; deletion is remembered until it
/// is confirmed (which removes that profile) or cancelled; a reset reloads
/// the profile list.
pub proof fn lemma_picker_steps(s: StateView, c: Option<Seq<char>>, m: MessageView)
    ensures
        m matches MessageView::Connect(h) ==> spec_next_state(s, m) == (StateView::RegisterRoot {
            host: h,
            username: seq![],
            password: seq![],
            confirm_password: seq![],
        }) && spec_action(s, m) == ActionView::Nothing,
        m matches MessageView::SelectProfile(p) ==> spec_next_state(s, m) == (StateView::UnlockProfile { profile: p, password: seq![] })
            && spec_action(s, m) == ActionView::Nothing,
        m is AddProfile ==> spec_next_state(s, m) == (StateView::AddProfile { host: seq![] }) && spec_action(s, m) == ActionView::Nothing,
        m is Reset ==> spec_next_state(s, m) == s && spec_action(s, m) == ActionView::LoadProfiles,
        m matches MessageView::DeleteProfile(p) ==> spec_next_confirm(c, m) == Some(p) && spec_next_state(s, m) == s && spec_action(s, m) == ActionView::Nothing,
        m matches MessageView::ConfirmDelete(p) ==> spec_next_confirm(c, m) is None && spec_next_state(s, m) == s && spec_action(s, m) == ActionView::RemoveProfile(p),
        m is CalcelDelete ==> spec_next_confirm(c, m) is None && spec_next_state(s, m) == s && spec_action(s, m) == ActionView::Nothing,
        !(m is DeleteProfile || m is ConfirmDelete || m is CalcelDelete) ==> spec_next_confirm(c, m) == c,
        m is UnlockProfile ==> match s {
            StateView::UnlockProfile { profile, password } => spec_next_state(s, m) == StateView::Loading && spec_action(s, m) == (ActionView::OpenProfile {
                profile,
                password,
            }),
            _ => spec_next_state(s, m) == s && spec_action(s, m) == ActionView::Nothing,
        },
        m matches MessageView::Host(v) ==> spec_action(s, m) == ActionView::Nothing && match s {
            StateView::AddProfile { .. } => spec_next_state(s, m) == (StateView::AddProfile { host: v }),
            StateView::RegisterRoot { username, password, confirm_password, .. } => spec_next_state(s, m) == (StateView::RegisterRoot {
                host: v,
                username,
                password,
                confirm_password,
            }),
            _ => spec_next_state(s, m) == s,
        },
        m matches MessageView::Username(v) ==> spec_action(s, m) == ActionView::Nothing && match s {
            StateView::RegisterRoot { host, password, confirm_password, .. } => spec_next_state(s, m) == (StateView::RegisterRoot {
                host,
                username: v,
                password,
                confirm_password,
            }),
            _ => spec_next_state(s, m) == s,
        },
        m matches MessageView::Password(v) ==> spec_action(s, m) == ActionView::Nothing && match s {
            StateView::RegisterRoot { host, username, confirm_password, .. } => spec_next_state(s, m) == (StateView::RegisterRoot {
                host,
                username,
                password: v,
                confirm_password,
            }),
            _ => spec_next_state(s, m) == s,
        },
        m matches MessageView::ConfirmPassword(v) ==> spec_action(s, m) == ActionView::Nothing && match s {
            StateView::RegisterRoot { host, username, password, .. } => spec_next_state(s, m) == (StateView::RegisterRoot {
                host,
                username,
                password,
                confirm_password: v,
            }),
            _ => spec_next_state(s, m) == s,
        },
{
}

/// The profile picker.
#[derive(Debug)]
pub struct ProfilePicker {
    state: PickerState,
    confirm_delete: Option<String>,
}

impl ProfilePicker {
    pub closed spec fn state(&self) -> StateView {
        self.state@
    }

    pub closed spec fn confirm(&self) -> Option<Seq<char>> {
        match self.confirm_delete {
            Some(p) => Some(p@),
            None => None,
        }
    }

    /// A picker listing `profiles`.
    pub fn new(profiles: Vec<String>) -> (r: ProfilePicker)
        ensures
            r.state() == StateView::SelectProfile(string_views(profiles@)),
            r.confirm() is None,
    {
        ProfilePicker { state: PickerState::SelectProfile(profiles), confirm_delete: None }
    }

    /// What the picker shows.
    pub fn current(&self) -> (r: &PickerState)
        ensures
            r@ == self.state(),
    {
        &self.state
    }

    /// The profile awaiting confirmation of its deletion.
    pub fn confirm_delete(&self) -> (r: Option<&String>)
        ensures
            match r {
                Some(p) => self.confirm() == Some(p@),
                None => self.confirm() is None,
            },
    {
        match &self.confirm_delete {
            Some(p) => Some(p),
            None => None,
        }
    }

    /// Shows the profile list that loading gave.
    pub fn profiles_loaded(&mut self, profiles: Vec<String>)
        ensures
            final(self).state() == StateView::SelectProfile(string_views(profiles@)),
            final(self).confirm() == old(self).confirm(),
    {
        self.state = PickerState::SelectProfile(profiles);
    }

    /// Handles a message: moves to the next state and returns the outside
    /// work to do.
    pub fn update(&mut self, message: PickerMessage) -> (r: PickerAction)
        requires
            message_fits(old(self).state(), message@),
        ensures
            final(self).state() == spec_next_state(old(self).state(), message@),
            final(self).confirm() == spec_next_confirm(old(self).confirm(), message@),
            r@ == spec_action(old(self).state(), message@),
        message@ matches MessageView::Connect(h) ==> final(self).state() == (StateView::RegisterRoot {
            host: h,
            username: seq![],
            password: seq![],
            confirm_password: seq![],
        }) && r@ == ActionView::Nothing,
        message@ matches MessageView::SelectProfile(p) ==> final(self).state() == (StateView::UnlockProfile { profile: p, password: seq![] })
            && r@ == ActionView::Nothing,
        message@ is AddProfile ==> final(self).state() == (StateView::AddProfile { host: seq![] }) && r@ == ActionView::Nothing,
        message@ is Reset ==> final(self).state() == old(self).state() && r@ == ActionView::LoadProfiles,
        message@ matches MessageView::DeleteProfile(p) ==> final(self).confirm() == Some(p) && final(self).state() == old(self).state() && r@ == ActionView::Nothing,
        message@ matches MessageView::ConfirmDelete(p) ==> final(self).confirm() is None && final(self).state() == old(self).state() && r@ == ActionView::RemoveProfile(p),
        message@ is CalcelDelete ==> final(self).confirm() is None && final(self).state() == old(self).state() && r@ == ActionView::Nothing,
        !(message@ is DeleteProfile || message@ is ConfirmDelete || message@ is CalcelDelete) ==> final(self).confirm() == old(self).confirm(),
        message@ is UnlockProfile ==> match old(self).state() {
            StateView::UnlockProfile { profile, password } => final(self).state() == StateView::Loading && r@ == (ActionView::OpenProfile {
                profile,
                password,
            }),
            _ => final(self).state() == old(self).state() && r@ == ActionView::Nothing,
        },
        message@ matches MessageView::Host(v) ==> r@ == ActionView::Nothing && match old(self).state() {
            StateView::AddProfile { .. } => final(self).state() == (StateView::AddProfile { host: v }),
            StateView::RegisterRoot { username, password, confirm_password, .. } => final(self).state() == (StateView::RegisterRoot {
                host: v,
                username,
                password,
                confirm_password,
            }),
            _ => final(self).state() == old(self).state(),
        },
        message@ matches MessageView::Username(v) ==> r@ == ActionView::Nothing && match old(self).state() {
            StateView::RegisterRoot { host, password, confirm_password, .. } => final(self).state() == (StateView::RegisterRoot {
                host,
                username: v,
                password,
                confirm_password,
            }),
            _ => final(self).state() == old(self).state(),
        },
        message@ matches MessageView::Password(v) ==> r@ == ActionView::Nothing && match old(self).state() {
            StateView::RegisterRoot { host, username, confirm_password, .. } => final(self).state() == (StateView::RegisterRoot {
                host,
                username,
                password: v,
                confirm_password,
            }),
            _ => final(self).state() == old(self).state(),
        },
        message@ matches MessageView::ConfirmPassword(v) ==> r@ == ActionView::Nothing && match old(self).state() {
            StateView::RegisterRoot { host, username, password, .. } => final(self).state() == (StateView::RegisterRoot {
                host,
                username,
                password,
                confirm_password: v,
            }),
            _ => final(self).state() == old(self).state(),
        },
    {
        proof {
            lemma_picker_steps(self.state(), self.confirm(), message@);
        }
        match message {
            PickerMessage::Reset => PickerAction::LoadProfiles,
            PickerMessage::SelectProfile(profile) => {
                self.state = PickerState::UnlockProfile { profile, password: String::new() };
                PickerAction::Nothing
            },
            PickerMessage::DeleteProfile(profile) => {
                self.confirm_delete = Some(profile);
                PickerAction::Nothing
            },
            PickerMessage::ConfirmDelete(profile) => {
                self.confirm_delete = None;
                PickerAction::RemoveProfile(profile)
            },
            PickerMessage::CalcelDelete => {
                self.confirm_delete = None;
                PickerAction::Nothing
            },
            PickerMessage::UnlockProfile => {
                if let PickerState::UnlockProfile { .. } = &self.state {
                    let mut old = PickerState::Loading;
                    std::mem::swap(&mut old, &mut self.state);
                    match old {
                        PickerState::UnlockProfile { profile, password } => PickerAction::OpenProfile { profile, password },
                        _ => PickerAction::Nothing,
                    }
                } else {
                    PickerAction::Nothing
                }
            },
            PickerMessage::AddProfile => {
                self.state = PickerState::AddProfile { host: String::new() };
                PickerAction::Nothing
            },
            PickerMessage::Connect(host) => {
                self.state = PickerState::RegisterRoot {
                    host,
                    username: String::new(),
                    password: String::new(),
                    confirm_password: String::new(),
                };
                PickerAction::Nothing
            },
            PickerMessage::Input(input) => {
                let mut old = PickerState::Loading;
                std::mem::swap(&mut old, &mut self.state);
                self.state = match (old, input) {
                    (PickerState::AddProfile { .. }, Input::Host(host)) => PickerState::AddProfile { host },
                    (PickerState::RegisterRoot { username, password, confirm_password, .. }, Input::Host(host)) => PickerState::RegisterRoot {
                        host,
                        username,
                        password,
                        confirm_password,
                    },
                    (PickerState::RegisterRoot { host, password, confirm_password, .. }, Input::Username(username)) => PickerState::RegisterRoot {
                        host,
                        username,
                        password,
                        confirm_password,
                    },
                    (PickerState::RegisterRoot { host, username, confirm_password, .. }, Input::Password(password)) => PickerState::RegisterRoot {
                        host,
                        username,
                        password,
                        confirm_password,
                    },
                    (PickerState::RegisterRoot { host, username, password, .. }, Input::ConfirmPassword(confirm_password)) => PickerState::RegisterRoot {
                        host,
                        username,
                        password,
                        confirm_password,
                    },
                    (other, _) => other,
                };
                PickerAction::Nothing
            },
        }
    }
}

} // verus!
