//! The menu engine: navigation state machine and action interpreter.
//!
//! The engine owns the validated menu set, the navigation state (current
//! menu and history stack), the optional authenticated session and the
//! user directory. It is driven from outside: the caller reports the
//! selected key, then repeatedly asks for the next directive and performs
//! the terminal, file and process work the library cannot do. All
//! decisions — what a key selects, where navigation goes, whether an
//! identity action is accepted — are made and verified here.
//!
//! Navigation safety rests on the load-time validation of `crate::menu`:
//! under its depth bounds, a `GoTo` always finds its target and a
//! `Return` always pops a non-empty history. Those two facts are stated
//! as lemmas at the end of this file and are woven into the invariant
//! `Engine::wf`.

use vstd::prelude::*;
use vstd::string::StrSliceExecFns;
use crate::files::OverwritePolicy;
use crate::files::spec_resolve;
use crate::menu::Action;
use crate::menu::AUTH_MENU;
use crate::menu::Menu;
use crate::menu::START_MENU;
use crate::menu::check_config;
use crate::menu::compute_low;
use crate::menu::config_checked;
use crate::menu::entry_index;
use crate::menu::menu_index;
use crate::menu::seq_safe_from;
use crate::menu::spec_entry_idx;
use crate::menu::spec_game_idx;
use crate::menu::spec_menu_idx;
use crate::users::Directory;
use crate::users::get_user;
use crate::users::lemma_eq_fold_refl;
use crate::users::lemma_lookup_idx;
use crate::users::lemma_lookup_idx_push;
use crate::users::phc_verifies;
use crate::users::register;
use crate::users::change_password;
use crate::users::change_contact;
use crate::users::spec_lookup;
use crate::users::spec_lookup_idx;
use crate::users::spec_username_ok;
use crate::users::try_login;
use crate::users::username_valid;

verus! {

/// Current menu and the history stack behind `Return`, as indices into
/// the validated menu set.
pub struct NavState {
    pub cur: usize,
    pub hist: Vec<usize>,
}

/// The entry the engine is in the middle of executing: which menu and
/// entry it belongs to, the position of the next action, and the history
/// depth bound that validation guarantees at that position.
#[derive(Clone, Copy)]
pub struct Pending {
    pub menu: usize,
    pub entry: usize,
    pub pos: usize,
    pub lb: Ghost<nat>,
}

/// What the caller must do next.
pub enum Directive {
    /// No entry is running: render the current menu and read a key.
    Idle,
    /// Internal navigation was applied; ask again.
    Proceed,
    /// Display the message, pause briefly, then ask again.
    Flash(String),
    /// Prompt for username, password, confirmation and contact, then
    /// call [`Engine::provide_register`].
    PromptRegister,
    /// Prompt for username and password, then call
    /// [`Engine::provide_login`].
    PromptLogin,
    /// Prompt for the new password twice, then call
    /// [`Engine::provide_change_password`].
    PromptChangePassword,
    /// Prompt for the contact value, then call
    /// [`Engine::provide_change_contact`].
    PromptChangeContact,
    /// Run and record the game with this id, blocking until it exits.
    RunGame(String),
    /// Open the restricted editor on this path, creating parents first.
    EditFile(String),
    /// Copy the first path to the second under the policy; the caller
    /// checks existence with [`crate::files::copy_needed`].
    CopyFile(String, String, OverwritePolicy),
    /// Leave the engine loop.
    Quit,
    /// A configuration defect surfaced at dispatch time: abort.
    Fatal(FatalError),
}

/// Dispatch-time configuration defects.
pub enum FatalError {
    /// The action needs an authenticated session and none is active.
    NeedsUser,
    /// The action needs an anonymous session and a user is logged in.
    NeedsAnonymous,
}

/// Rejection of a configuration at load time.
pub enum ConfigError {
    Rejected,
}

/// Navigation state consistency relative to the menu set and the depth
/// bounds: the current menu is valid and sits no shallower than its
/// bound, and each stacked menu was pushed at its own depth.
pub open spec fn nav_inv(menus: Seq<Menu>, low: Seq<u64>, nav: NavState) -> bool {
    &&& nav.cur < menus.len()
    &&& low[nav.cur as int] <= nav.hist@.len()
    &&& forall|k: int|
        0 <= k < nav.hist@.len() ==> (#[trigger] nav.hist@[k]) < menus.len()
            && low[nav.hist@[k] as int] <= k
}

/// The engine.
pub struct Engine {
    pub menus: Vec<Menu>,
    pub games: Vec<String>,
    pub low: Ghost<Seq<u64>>,
    pub nav: NavState,
    pub session: Option<String>,
    pub dir: Directory,
    pub pending: Option<Pending>,
}

impl Engine {
    /// The action sequence a pending entry points into.
    pub open spec fn spec_actions_of(self, p: Pending) -> Seq<Action> {
        self.menus@[p.menu as int].entries@[p.entry as int].actions@
    }

    /// The action the engine would execute next, if any.
    pub open spec fn spec_pending_action(self) -> Option<Action> {
        match self.pending {
            Option::Some(p) => if p.pos < self.spec_actions_of(p).len() {
                Option::Some(self.spec_actions_of(p)[p.pos as int])
            } else {
                Option::None
            },
            Option::None => Option::None,
        }
    }

    /// The pending entry, if any, points at a real action sequence and
    /// is safe from its current position under its depth bound.
    pub open spec fn pending_ok(self) -> bool {
        match self.pending {
            Option::Some(p) => {
                &&& p.menu < self.menus@.len()
                &&& p.entry < self.menus@[p.menu as int].entries@.len()
                &&& p.pos <= self.spec_actions_of(p).len()
                &&& seq_safe_from(
                    self.menus@,
                    self.low@,
                    self.spec_actions_of(p),
                    p.pos as int,
                    p.lb@,
                )
            },
            Option::None => true,
        }
    }

    /// The engine invariant: the configuration passed validation, the
    /// navigation state respects the depth bounds, the directory is
    /// well-formed, an authenticated user has a record, and any pending
    /// entry is safe and no deeper than the current history.
    pub open spec fn wf(self) -> bool {
        &&& config_checked(self.menus@, self.games@, self.low@)
        &&& nav_inv(self.menus@, self.low@, self.nav)
        &&& self.dir.wf()
        &&& (self.session matches Some(u) ==> spec_lookup_idx(self.dir@, u@) >= 0)
        &&& self.pending_ok()
        &&& (self.pending matches Some(p) ==> p.lb@ <= self.nav.hist@.len())
    }

    /// The parts no engine step may change.
    pub open spec fn same_config(pre: Engine, post: Engine) -> bool {
        &&& post.menus == pre.menus
        &&& post.games == pre.games
        &&& post.low == pre.low
    }

    /// One step forward inside the same pending entry.
    pub open spec fn spec_advanced(pre: Engine, post: Engine) -> bool {
        match (pre.pending, post.pending) {
            (Option::Some(p), Option::Some(q)) => q.menu == p.menu && q.entry == p.entry && q.pos
                == p.pos + 1,
            _ => false,
        }
    }

    /// Validates a configuration and builds the engine on it. The engine
    /// starts in the first menu, with an empty history, no session and no
    /// pending entry. Validation is conservative: it accepts only
    /// configurations whose navigation it can bound, and `Ok` guarantees
    /// the invariant that keeps navigation from ever failing.
    pub fn new(menus: Vec<Menu>, games: Vec<String>, dir: Directory) -> (r: Result<
        Engine,
        ConfigError,
    >)
        requires
            dir.wf(),
        ensures
            r matches Ok(e) ==> {
                &&& e.wf()
                &&& e.menus@ == menus@
                &&& e.games@ == games@
                &&& e.dir@ == dir@
                &&& e.nav.cur == START_MENU
                &&& e.nav.hist@.len() == 0
                &&& e.session is None
                &&& e.pending is None
            },
            menus@.len() < 2 ==> r is Err,
    {
        let low = compute_low(&menus);
        Engine::new_with_bounds(menus, games, low, dir)
    }

    /// As [`Engine::new`], but against caller-supplied depth bounds, and
    /// exact: the engine is built if and only if the configuration is
    /// structurally sound with respect to those bounds.
    pub fn new_with_bounds(menus: Vec<Menu>, games: Vec<String>, low: Vec<u64>, dir: Directory) -> (r:
        Result<Engine, ConfigError>)
        requires
            dir.wf(),
        ensures
            r is Ok <==> config_checked(menus@, games@, low@),
            r matches Ok(e) ==> {
                &&& e.wf()
                &&& e.menus@ == menus@
                &&& e.games@ == games@
                &&& e.low@ == low@
                &&& e.dir@ == dir@
                &&& e.nav.cur == START_MENU
                &&& e.nav.hist@.len() == 0
                &&& e.session is None
                &&& e.pending is None
            },
    {
        if !check_config(&menus, &games, &low) {
            return Err(ConfigError::Rejected);
        }
        let ghost lowg = low@;
        Ok(
            Engine {
                menus,
                games,
                low: Ghost(lowg),
                nav: NavState { cur: START_MENU, hist: Vec::new() },
                session: None,
                dir,
                pending: None,
            },
        )
    }

    /// The menu the engine is showing.
    pub fn current_menu(&self) -> (m: &Menu)
        requires
            self.wf(),
        ensures
            *m == self.menus@[self.nav.cur as int],
    {
        &self.menus[self.nav.cur]
    }

    /// Resolves a keystroke against the current menu. On a match the
    /// entry's action sequence becomes pending; on no match nothing
    /// changes and the caller signals an invalid choice.
    pub fn select_key(&mut self, key: char) -> (r: bool)
        requires
            old(self).wf(),
            old(self).pending is None,
        ensures
            final(self).wf(),
            Engine::same_config(*old(self), *final(self)),
            final(self).nav == old(self).nav,
            final(self).session == old(self).session,
            final(self).dir == old(self).dir,
            r == (spec_entry_idx(old(self).menus@[old(self).nav.cur as int].entries@, key) >= 0),
            r ==> (final(self).pending matches Some(p) && p.menu == old(self).nav.cur && p.entry
                == spec_entry_idx(old(self).menus@[old(self).nav.cur as int].entries@, key)
                && p.pos == 0),
            !r ==> final(self).pending is None,
    {
        let cur = self.nav.cur;
        match entry_index(&self.menus[cur], key) {
            Some(e) => {
                let ghost lb0 = self.low@[cur as int] as nat;
                self.pending = Some(Pending { menu: cur, entry: e, pos: 0, lb: Ghost(lb0) });
                true
            },
            None => false,
        }
    }

    /// Executes the next pending action, or reports `Idle` when no entry
    /// is running. Navigation actions are applied internally: a `GoTo`
    /// always finds its target and a `Return` always pops a non-empty
    /// history, both guaranteed by load-time validation. Identity actions
    /// only announce which prompt the caller must run; effectful actions
    /// hand out resolved paths or the game id.
    pub fn next_action(&mut self) -> (d: Directive)
        requires
            old(self).wf(),
        ensures
            final(self).wf(),
            Engine::same_config(*old(self), *final(self)),
            final(self).dir == old(self).dir,
            final(self).session == old(self).session,
            match old(self).spec_pending_action() {
                Option::None => (d is Idle && final(self).pending is None && final(self).nav
                    == old(self).nav),
                Option::Some(a) => match a {
                    Action::GoTo(id) => {
                        &&& d is Proceed
                        &&& Engine::spec_advanced(*old(self), *final(self))
                        &&& spec_menu_idx(old(self).menus@, id@) >= 0
                        &&& final(self).nav.cur == spec_menu_idx(old(self).menus@, id@)
                        &&& final(self).nav.hist@ == old(self).nav.hist@.push(old(self).nav.cur)
                    },
                    Action::Return => {
                        &&& d is Proceed
                        &&& Engine::spec_advanced(*old(self), *final(self))
                        &&& old(self).nav.hist@.len() >= 1
                        &&& final(self).nav.cur == old(self).nav.hist@.last()
                        &&& final(self).nav.hist@ == old(self).nav.hist@.drop_last()
                    },
                    Action::Quit => d is Quit && final(self).pending is None && final(self).nav
                        == old(self).nav,
                    Action::FlashMessage(s) => (d matches Directive::Flash(t) && t@ == s@)
                        && Engine::spec_advanced(*old(self), *final(self)) && final(self).nav
                        == old(self).nav,
                    Action::Register => {
                        &&& final(self).nav == old(self).nav
                        &&& if old(self).session is None {
                            d is PromptRegister && final(self).pending == old(self).pending
                        } else {
                            (d matches Directive::Fatal(f) && f is NeedsAnonymous) && final(self).pending is None
                        }
                    },
                    Action::Login => {
                        &&& final(self).nav == old(self).nav
                        &&& if old(self).session is None {
                            d is PromptLogin && final(self).pending == old(self).pending
                        } else {
                            (d matches Directive::Fatal(f) && f is NeedsAnonymous) && final(self).pending is None
                        }
                    },
                    Action::ChangePassword => {
                        &&& final(self).nav == old(self).nav
                        &&& if old(self).session is Some {
                            d is PromptChangePassword && final(self).pending == old(self).pending
                        } else {
                            (d matches Directive::Fatal(f) && f is NeedsUser) && final(self).pending is None
                        }
                    },
                    Action::ChangeContact => {
                        &&& final(self).nav == old(self).nav
                        &&& if old(self).session is Some {
                            d is PromptChangeContact && final(self).pending == old(self).pending
                        } else {
                            (d matches Directive::Fatal(f) && f is NeedsUser) && final(self).pending is None
                        }
                    },
                    Action::RunGame(id) => {
                        &&& final(self).nav == old(self).nav
                        &&& if old(self).session is Some {
                            &&& (d matches Directive::RunGame(g) && g@ == id@)
                            &&& spec_game_idx(old(self).games@, id@) >= 0
                            &&& Engine::spec_advanced(*old(self), *final(self))
                        } else {
                            (d matches Directive::Fatal(f) && f is NeedsUser) && final(self).pending is None
                        }
                    },
                    Action::EditFile(p) => {
                        &&& final(self).nav == old(self).nav
                        &&& match old(self).session {
                            Option::Some(u) => (d matches Directive::EditFile(path) && path@
                                == spec_resolve(&p, u@)) && Engine::spec_advanced(
                                *old(self),
                                *final(self),
                            ),
                            Option::None => (d matches Directive::Fatal(f) && f is NeedsUser)
                                && final(self).pending is None,
                        }
                    },
                    Action::CopyFile(sp, dp, pol) => {
                        &&& final(self).nav == old(self).nav
                        &&& match old(self).session {
                            Option::Some(u) => (d matches Directive::CopyFile(s, t, pl) && s@
                                == spec_resolve(&sp, u@) && t@ == spec_resolve(&dp, u@) && pl
                                == pol) && Engine::spec_advanced(*old(self), *final(self)),
                            Option::None => (d matches Directive::Fatal(f) && f is NeedsUser)
                                && final(self).pending is None,
                        }
                    },
                },
            },
    {
        let p = match self.pending {
            None => {
                return Directive::Idle;
            },
            Some(p) => p,
        };
        let alen = self.menus[p.menu].entries[p.entry].actions.len();
        if p.pos >= alen {
            self.pending = None;
            return Directive::Idle;
        }
        let ghost menus = self.menus@;
        let ghost low = self.low@;
        let ghost actions = self.spec_actions_of(p);
        let ghost lb = p.lb@;
        let a = self.menus[p.menu].entries[p.entry].actions[p.pos].duplicate();
        assert(actions[p.pos as int] == a);
        match a {
            Action::GoTo(id) => {
                let j = match menu_index(&self.menus, &id) {
                    Some(j) => j,
                    None => {
                        proof {
                            assert(false);
                        }
                        return Directive::Idle;
                    },
                };
                let ghost hist0 = self.nav.hist@;
                let cur0 = self.nav.cur;
                self.nav.hist.push(cur0);
                self.nav.cur = j;
                self.pending = Some(
                    Pending { menu: p.menu, entry: p.entry, pos: p.pos + 1, lb: Ghost(lb + 1) },
                );
                proof {
                    assert forall|k: int|
                        0 <= k < self.nav.hist@.len() implies (#[trigger] self.nav.hist@[k])
                        < menus.len() && low[self.nav.hist@[k] as int] <= k by {
                        if k < hist0.len() {
                            assert(self.nav.hist@[k] == hist0[k]);
                        } else {
                            assert(self.nav.hist@[k] == cur0);
                        }
                    }
                }
                Directive::Proceed
            },
            Action::Return => {
                let popped = match self.nav.hist.pop() {
                    Some(x) => x,
                    None => {
                        proof {
                            assert(false);
                        }
                        return Directive::Idle;
                    },
                };
                self.nav.cur = popped;
                self.pending = Some(
                    Pending {
                        menu: p.menu,
                        entry: p.entry,
                        pos: p.pos + 1,
                        lb: Ghost((lb - 1) as nat),
                    },
                );
                Directive::Proceed
            },
            Action::Quit => {
                self.pending = None;
                Directive::Quit
            },
            Action::FlashMessage(s) => {
                self.pending = Some(
                    Pending { menu: p.menu, entry: p.entry, pos: p.pos + 1, lb: Ghost(lb) },
                );
                Directive::Flash(s)
            },
            Action::Register => {
                if self.session.is_some() {
                    self.pending = None;
                    Directive::Fatal(FatalError::NeedsAnonymous)
                } else {
                    Directive::PromptRegister
                }
            },
            Action::Login => {
                if self.session.is_some() {
                    self.pending = None;
                    Directive::Fatal(FatalError::NeedsAnonymous)
                } else {
                    Directive::PromptLogin
                }
            },
            Action::ChangePassword => {
                if self.session.is_none() {
                    self.pending = None;
                    Directive::Fatal(FatalError::NeedsUser)
                } else {
                    Directive::PromptChangePassword
                }
            },
            Action::ChangeContact => {
                if self.session.is_none() {
                    self.pending = None;
                    Directive::Fatal(FatalError::NeedsUser)
                } else {
                    Directive::PromptChangeContact
                }
            },
            Action::RunGame(id) => {
                if self.session.is_none() {
                    self.pending = None;
                    Directive::Fatal(FatalError::NeedsUser)
                } else {
                    proof {
                        assert(crate::menu::menu_games_ok(menus[p.menu as int], self.games@));
                        assert(crate::menu::actions_games_ok(actions, self.games@));
                    }
                    self.pending = Some(
                        Pending { menu: p.menu, entry: p.entry, pos: p.pos + 1, lb: Ghost(lb) },
                    );
                    Directive::RunGame(id)
                }
            },
            Action::EditFile(ps) => {
                let path = match &self.session {
                    None => {
                        self.pending = None;
                        return Directive::Fatal(FatalError::NeedsUser);
                    },
                    Some(u) => ps.resolve(u.as_str()),
                };
                self.pending = Some(
                    Pending { menu: p.menu, entry: p.entry, pos: p.pos + 1, lb: Ghost(lb) },
                );
                Directive::EditFile(path)
            },
            Action::CopyFile(sp, dp, pol) => {
                let (src, dst) = match &self.session {
                    None => {
                        self.pending = None;
                        return Directive::Fatal(FatalError::NeedsUser);
                    },
                    Some(u) => (sp.resolve(u.as_str()), dp.resolve(u.as_str())),
                };
                self.pending = Some(
                    Pending { menu: p.menu, entry: p.entry, pos: p.pos + 1, lb: Ghost(lb) },
                );
                Directive::CopyFile(src, dst, pol)
            },
        }
    }
}

/// Outcome of a registration attempt.
pub enum RegisterOutcome {
    /// A user is already logged in: a configuration defect, fatal.
    NotAnonymous,
    /// Empty username: the attempt is dropped silently.
    EmptyUsername,
    /// The username is not ASCII-alphanumeric or is longer than fifteen
    /// characters.
    InvalidUsername,
    /// A user of that name (up to ASCII case) already exists.
    UserExists,
    /// Password and confirmation differ; nothing was stored.
    PasswordMismatch,
    /// The password hasher failed; nothing was stored.
    HashFailure,
    /// The account was created and the session established.
    Registered,
    /// As `Registered`, but the contact was empty: warn that the reset
    /// ability is lost.
    RegisteredEmptyContact,
}

/// Outcome of a login attempt. Wrong password and disabled account are
/// deliberately one variant, so no message can reveal which usernames
/// exist with which state.
pub enum LoginOutcome {
    /// A user is already logged in: a configuration defect, fatal.
    NotAnonymous,
    /// Empty username: the attempt is dropped silently.
    EmptyUsername,
    /// No record under that name.
    NoSuchUser,
    /// Wrong password or disabled account, reported uniformly.
    LoginFailed,
    /// The session is established.
    LoggedIn,
}

/// Outcome of a password change.
pub enum ChangePasswordOutcome {
    /// No user is logged in: a configuration defect, fatal.
    NotLoggedIn,
    /// Password and confirmation differ; the stored hash is untouched.
    PasswordMismatch,
    /// The password hasher failed; the stored hash is untouched.
    HashFailure,
    /// The new hash is stored.
    Changed,
}

/// Outcome of a contact change.
pub enum ChangeContactOutcome {
    /// No user is logged in: a configuration defect, fatal.
    NotLoggedIn,
    /// The contact is stored.
    Updated,
    /// An empty value was stored: the contact information is deleted,
    /// and the caller warns about it.
    UpdatedEmptyWarning,
}

fn str_eq(a: &str, b: &str) -> (r: bool)
    ensures
        r == (a@ == b@),
{
    let an = a.unicode_len();
    let bn = b.unicode_len();
    if an != bn {
        return false;
    }
    let mut i: usize = 0;
    while i < an
        invariant
            an == a@.len(),
            an == b@.len(),
            i <= an,
            forall|k: int| 0 <= k < i ==> a@[k] == b@[k],
        decreases an - i,
    {
        if a.get_char(i) != b.get_char(i) {
            return false;
        }
        i = i + 1;
    }
    proof {
        assert(a@ =~= b@);
    }
    true
}

impl Engine {
    /// Completes a `Register` action with the prompted inputs. Validates
    /// the username (non-empty, ASCII-alphanumeric, at most fifteen
    /// characters), rejects a taken name case-insensitively, rejects a
    /// mismatched confirmation without touching the directory, and on
    /// success creates the record, establishes the session, jumps to the
    /// post-authentication menu and clears the navigation history.
    pub fn provide_register(
        &mut self,
        username: &str,
        password: &str,
        confirm: &str,
        contact: &str,
    ) -> (r: RegisterOutcome)
        requires
            old(self).wf(),
        ensures
            final(self).wf(),
            Engine::same_config(*old(self), *final(self)),
            !(r is Registered || r is RegisteredEmptyContact) ==> final(self).dir@ == old(
                self,
            ).dir@ && final(self).session == old(self).session && final(self).nav == old(self).nav,
            old(self).session is Some ==> r is NotAnonymous,
            old(self).session is None && username@.len() == 0 ==> r is EmptyUsername,
            old(self).session is None && username@.len() > 0 && !spec_username_ok(username@)
                ==> r is InvalidUsername,
            old(self).session is None && spec_username_ok(username@) && spec_lookup_idx(
                old(self).dir@,
                username@,
            ) >= 0 ==> r is UserExists,
            old(self).session is None && spec_username_ok(username@) && spec_lookup_idx(
                old(self).dir@,
                username@,
            ) < 0 && password@ != confirm@ ==> r is PasswordMismatch,
            old(self).session is None && spec_username_ok(username@) && spec_lookup_idx(
                old(self).dir@,
                username@,
            ) < 0 && password@ == confirm@ ==> (r is HashFailure || r is Registered
                || r is RegisteredEmptyContact),
            (r is Registered || r is RegisteredEmptyContact) ==> ({
                &&& final(self).session matches Some(u) && u@ == username@
                &&& final(self).nav.cur == AUTH_MENU
                &&& final(self).nav.hist@.len() == 0
                &&& final(self).dir@ == old(self).dir@.push(final(self).dir@.last())
                &&& final(self).dir@.last().username == username@
                &&& final(self).dir@.last().contact == contact@
                &&& (final(self).dir@.last().pwhash matches Some(h) && phc_verifies(h, password@))
            }),
            (r is Registered || r is RegisteredEmptyContact) ==> (r is RegisteredEmptyContact
                <==> contact@.len() == 0),
            !(r is Registered || r is RegisteredEmptyContact) ==> final(self).pending is None,
            (r is Registered || r is RegisteredEmptyContact) ==> match old(
                self,
            ).spec_pending_action() {
                Option::Some(a) => if a is Register || a is Login {
                    Engine::spec_advanced(*old(self), *final(self))
                } else {
                    final(self).pending is None
                },
                Option::None => final(self).pending is None,
            },
    {
        if self.session.is_some() {
            self.pending = None;
            return RegisterOutcome::NotAnonymous;
        }
        if username.is_empty() {
            self.pending = None;
            return RegisterOutcome::EmptyUsername;
        }
        if !username_valid(username) {
            self.pending = None;
            return RegisterOutcome::InvalidUsername;
        }
        if get_user(&self.dir, username).is_some() {
            self.pending = None;
            return RegisterOutcome::UserExists;
        }
        if !str_eq(password, confirm) {
            self.pending = None;
            return RegisterOutcome::PasswordMismatch;
        }
        match register(&mut self.dir, username, password, contact) {
            None => {
                self.pending = None;
                RegisterOutcome::HashFailure
            },
            Some(u) => {
                proof {
                    lemma_eq_fold_refl(username@);
                    lemma_lookup_idx_push(old(self).dir@, u@, username@);
                }
                self.session = Some(u.username);
                self.nav.cur = AUTH_MENU;
                self.nav.hist = Vec::new();
                let np = self.advanced_pending_at_register();
                self.pending = np;
                if contact.is_empty() {
                    RegisterOutcome::RegisteredEmptyContact
                } else {
                    RegisterOutcome::Registered
                }
            },
        }
    }

    /// The pending entry advanced one step past a `Register` or `Login`
    /// action it sits on, with the depth bound reset for the cleared
    /// history — or nothing, aborting the rest of the entry.
    fn advanced_pending_at_register(&self) -> (np: Option<Pending>)
        requires
            self.pending_ok(),
        ensures
            match self.spec_pending_action() {
                Option::Some(a) => if a is Register || a is Login {
                    np matches Some(q) && (self.pending matches Some(p) && q.menu == p.menu
                        && q.entry == p.entry && q.pos == p.pos + 1) && q.lb@ == 0
                } else {
                    np is None
                },
                Option::None => np is None,
            },
            match np {
                Option::Some(q) => {
                    &&& q.menu < self.menus@.len()
                    &&& q.entry < self.menus@[q.menu as int].entries@.len()
                    &&& q.pos <= self.spec_actions_of(q).len()
                    &&& seq_safe_from(
                        self.menus@,
                        self.low@,
                        self.spec_actions_of(q),
                        q.pos as int,
                        q.lb@,
                    )
                },
                Option::None => true,
            },
    {
        match self.pending {
            Some(p) => {
                if p.pos < self.menus[p.menu].entries[p.entry].actions.len() {
                    let at_auth = match &self.menus[p.menu].entries[p.entry].actions[p.pos] {
                        Action::Register => true,
                        Action::Login => true,
                        _ => false,
                    };
                    if at_auth {
                        Some(Pending { menu: p.menu, entry: p.entry, pos: p.pos + 1, lb: Ghost(0) })
                    } else {
                        None
                    }
                } else {
                    None
                }
            },
            None => None,
        }
    }

    /// The pending entry advanced one step past a `ChangePassword` or
    /// `ChangeContact` action it sits on, keeping the depth bound — or
    /// nothing, aborting the rest of the entry.
    fn advanced_pending_at_change(&self) -> (np: Option<Pending>)
        requires
            self.pending_ok(),
        ensures
            match self.spec_pending_action() {
                Option::Some(a) => if a is ChangePassword || a is ChangeContact {
                    np matches Some(q) && (self.pending matches Some(p) && q.menu == p.menu
                        && q.entry == p.entry && q.pos == p.pos + 1 && q.lb == p.lb)
                } else {
                    np is None
                },
                Option::None => np is None,
            },
            match np {
                Option::Some(q) => {
                    &&& q.menu < self.menus@.len()
                    &&& q.entry < self.menus@[q.menu as int].entries@.len()
                    &&& q.pos <= self.spec_actions_of(q).len()
                    &&& seq_safe_from(
                        self.menus@,
                        self.low@,
                        self.spec_actions_of(q),
                        q.pos as int,
                        q.lb@,
                    )
                },
                Option::None => true,
            },
    {
        match self.pending {
            Some(p) => {
                if p.pos < self.menus[p.menu].entries[p.entry].actions.len() {
                    let at_change = match &self.menus[p.menu].entries[p.entry].actions[p.pos] {
                        Action::ChangePassword => true,
                        Action::ChangeContact => true,
                        _ => false,
                    };
                    if at_change {
                        Some(Pending { menu: p.menu, entry: p.entry, pos: p.pos + 1, lb: p.lb })
                    } else {
                        None
                    }
                } else {
                    None
                }
            },
            None => None,
        }
    }

    /// Completes a `Login` action with the prompted inputs. An empty
    /// username aborts silently; an unknown one is reported; a wrong
    /// password and a disabled account get one and the same failure. On
    /// success the session takes the stored record's username, the
    /// engine jumps to the post-authentication menu and the navigation
    /// history is cleared.
    pub fn provide_login(&mut self, username: &str, password: &str) -> (r: LoginOutcome)
        requires
            old(self).wf(),
        ensures
            final(self).wf(),
            Engine::same_config(*old(self), *final(self)),
            final(self).dir@ == old(self).dir@,
            old(self).session is Some ==> r is NotAnonymous,
            old(self).session is None && username@.len() == 0 ==> r is EmptyUsername,
            old(self).session is None && username@.len() > 0 && spec_lookup(
                old(self).dir@,
                username@,
            ) is None ==> r is NoSuchUser,
            old(self).session is None && username@.len() > 0 ==> (spec_lookup(
                old(self).dir@,
                username@,
            ) matches Some(rec) ==> ((r is LoggedIn <==> (rec.pwhash matches Some(h)
                && phc_verifies(h, password@))) && (r is LoggedIn || r is LoginFailed))),
            r is LoggedIn ==> ((final(self).session matches Some(u) && spec_lookup(
                old(self).dir@,
                username@,
            ) matches Some(rec) && u@ == rec.username) && final(self).nav.cur == AUTH_MENU
                && final(self).nav.hist@.len() == 0),
            !(r is LoggedIn) ==> final(self).session == old(self).session && final(self).nav
                == old(self).nav && final(self).pending is None,
            r is LoggedIn ==> match old(self).spec_pending_action() {
                Option::Some(a) => if a is Register || a is Login {
                    Engine::spec_advanced(*old(self), *final(self))
                } else {
                    final(self).pending is None
                },
                Option::None => final(self).pending is None,
            },
    {
        if self.session.is_some() {
            self.pending = None;
            return LoginOutcome::NotAnonymous;
        }
        if username.is_empty() {
            self.pending = None;
            return LoginOutcome::EmptyUsername;
        }
        let u = match get_user(&self.dir, username) {
            None => {
                self.pending = None;
                return LoginOutcome::NoSuchUser;
            },
            Some(u) => u,
        };
        if !try_login(&u, password) {
            self.pending = None;
            return LoginOutcome::LoginFailed;
        }
        proof {
            lemma_lookup_idx(self.dir@, username@);
            let idx = spec_lookup_idx(self.dir@, username@);
            lemma_eq_fold_refl(u@.username);
            assert(crate::users::spec_eq_fold(self.dir@[idx].username, u@.username));
            lemma_lookup_idx(self.dir@, u@.username);
        }
        self.session = Some(u.username);
        self.nav.cur = AUTH_MENU;
        self.nav.hist = Vec::new();
        let np = self.advanced_pending_at_register();
        self.pending = np;
        LoginOutcome::LoggedIn
    }

    /// Completes a `ChangePassword` action. A mismatched confirmation
    /// mutates nothing, so the previously stored hash still verifies the
    /// old password; a match stores a hash of the new one.
    pub fn provide_change_password(&mut self, password: &str, confirm: &str) -> (r:
        ChangePasswordOutcome)
        requires
            old(self).wf(),
        ensures
            final(self).wf(),
            Engine::same_config(*old(self), *final(self)),
            final(self).nav == old(self).nav,
            final(self).session == old(self).session,
            old(self).session is None ==> r is NotLoggedIn && final(self).dir@ == old(self).dir@,
            old(self).session is Some ==> ({
                &&& (password@ != confirm@ ==> r is PasswordMismatch && final(self).dir@ == old(
                    self,
                ).dir@)
                &&& (password@ == confirm@ ==> (r is HashFailure || r is Changed))
                &&& (r is HashFailure ==> final(self).dir@ == old(self).dir@)
            }),
            r is Changed ==> (old(self).session matches Some(u) && ({
                let idx = spec_lookup_idx(old(self).dir@, u@);
                &&& 0 <= idx < old(self).dir@.len()
                &&& final(self).dir@.len() == old(self).dir@.len()
                &&& (forall|k: int|
                    0 <= k < old(self).dir@.len() && k != idx ==> final(self).dir@[k] == old(
                        self,
                    ).dir@[k])
                &&& final(self).dir@[idx].username == old(self).dir@[idx].username
                &&& final(self).dir@[idx].contact == old(self).dir@[idx].contact
                &&& (final(self).dir@[idx].pwhash matches Some(h) && phc_verifies(h, password@))
            })),
            !(r is Changed) ==> final(self).pending is None,
            r is Changed ==> match old(self).spec_pending_action() {
                Option::Some(a) => if a is ChangePassword || a is ChangeContact {
                    Engine::spec_advanced(*old(self), *final(self))
                } else {
                    final(self).pending is None
                },
                Option::None => final(self).pending is None,
            },
    {
        let uname = match &self.session {
            None => {
                self.pending = None;
                return ChangePasswordOutcome::NotLoggedIn;
            },
            Some(u) => u.clone(),
        };
        if !str_eq(password, confirm) {
            self.pending = None;
            return ChangePasswordOutcome::PasswordMismatch;
        }
        let ghost dir0 = self.dir@;
        if !change_password(&mut self.dir, uname.as_str(), password) {
            self.pending = None;
            return ChangePasswordOutcome::HashFailure;
        }
        proof {
            crate::users::lemma_lookup_same_usernames(dir0, self.dir@, uname@);
        }
        let np = self.advanced_pending_at_change();
        self.pending = np;
        ChangePasswordOutcome::Changed
    }

    /// Completes a `ChangeContact` action. An empty value is accepted —
    /// it deletes the stored contact — and the caller is told to warn
    /// about it before the value is persisted.
    pub fn provide_change_contact(&mut self, contact: &str) -> (r: ChangeContactOutcome)
        requires
            old(self).wf(),
        ensures
            final(self).wf(),
            Engine::same_config(*old(self), *final(self)),
            final(self).nav == old(self).nav,
            final(self).session == old(self).session,
            old(self).session is None ==> r is NotLoggedIn && final(self).dir@ == old(self).dir@,
            old(self).session is Some ==> (r is Updated || r is UpdatedEmptyWarning),
            old(self).session is Some ==> (r is UpdatedEmptyWarning <==> contact@.len() == 0),
            (r is Updated || r is UpdatedEmptyWarning) ==> (old(self).session matches Some(u)
                && ({
                let idx = spec_lookup_idx(old(self).dir@, u@);
                &&& 0 <= idx < old(self).dir@.len()
                &&& final(self).dir@.len() == old(self).dir@.len()
                &&& (forall|k: int|
                    0 <= k < old(self).dir@.len() && k != idx ==> final(self).dir@[k] == old(
                        self,
                    ).dir@[k])
                &&& final(self).dir@[idx].username == old(self).dir@[idx].username
                &&& final(self).dir@[idx].pwhash == old(self).dir@[idx].pwhash
                &&& final(self).dir@[idx].contact == contact@
            })),
            old(self).session is None ==> final(self).pending is None,
            (r is Updated || r is UpdatedEmptyWarning) ==> match old(self).spec_pending_action() {
                Option::Some(a) => if a is ChangePassword || a is ChangeContact {
                    Engine::spec_advanced(*old(self), *final(self))
                } else {
                    final(self).pending is None
                },
                Option::None => final(self).pending is None,
            },
    {
        let uname = match &self.session {
            None => {
                self.pending = None;
                return ChangeContactOutcome::NotLoggedIn;
            },
            Some(u) => u.clone(),
        };
        let ghost dir0 = self.dir@;
        if !change_contact(&mut self.dir, uname.as_str(), contact) {
            self.pending = None;
            return ChangeContactOutcome::NotLoggedIn;
        }
        proof {
            crate::users::lemma_lookup_same_usernames(dir0, self.dir@, uname@);
        }
        let np = self.advanced_pending_at_change();
        self.pending = np;
        if contact.is_empty() {
            ChangeContactOutcome::UpdatedEmptyWarning
        } else {
            ChangeContactOutcome::Updated
        }
    }
}

/// In a configuration that load-time validation accepted, navigation
/// never fails on `Return`: whenever the engine is about to execute a
/// `Return`, the history it would pop is non-empty.
pub proof fn lemma_return_pops_nonempty(e: Engine)
    requires
        e.wf(),
        e.spec_pending_action() matches Some(a) && a is Return,
    ensures
        e.nav.hist@.len() >= 1,
{
    match e.pending {
        Option::Some(p) => {
            assert(seq_safe_from(e.menus@, e.low@, e.spec_actions_of(p), p.pos as int, p.lb@));
        },
        Option::None => {
            assert(false);
        },
    }
}

/// In a configuration that load-time validation accepted, navigation
/// never fails on `GoTo`: whenever the engine is about to execute a
/// `GoTo`, its target id names a menu of the set.
pub proof fn lemma_goto_target_exists(e: Engine)
    requires
        e.wf(),
    ensures
        e.spec_pending_action() matches Some(a) ==> match a {
            Action::GoTo(id) => spec_menu_idx(e.menus@, id@) >= 0,
            _ => true,
        },
{
    match e.pending {
        Option::Some(p) => {
            assert(seq_safe_from(e.menus@, e.low@, e.spec_actions_of(p), p.pos as int, p.lb@));
        },
        Option::None => {},
    }
}

} // verus!
