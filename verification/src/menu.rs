//! Declarative menus and their load-time validation.
//!
//! A configuration is a set of menus addressed by id; each menu binds
//! single-character keys to ordered action sequences. Structural faults —
//! a `GoTo` that names no menu, a `Return` that could pop an empty
//! history, a `RunGame` that names no game, duplicate ids or keys — are
//! caught here, at load time, before the engine runs a single action.
//!
//! The `Return` analysis assigns every menu a lower bound on the depth of
//! the navigation history whenever that menu is active (`low`), and then
//! checks every action sequence against those bounds. The bounds
//! themselves are found by a simple relaxation pass; only the checking
//! pass is trusted by the proofs, so a bound that the pass fails to
//! tighten can only make validation reject, never make it unsound.

use vstd::prelude::*;
use crate::files::OverwritePolicy;
use crate::files::PathSpec;

verus! {

/// One declarative operation of an entry's action sequence.
pub enum Action {
    GoTo(String),
    Return,
    Quit,
    FlashMessage(String),
    Register,
    Login,
    ChangePassword,
    ChangeContact,
    RunGame(String),
    EditFile(PathSpec),
    CopyFile(PathSpec, PathSpec, OverwritePolicy),
}

impl Action {
    /// An exact copy.
    pub fn duplicate(&self) -> (r: Action)
        ensures
            r == *self,
    {
        match self {
            Action::GoTo(id) => Action::GoTo(id.clone()),
            Action::Return => Action::Return,
            Action::Quit => Action::Quit,
            Action::FlashMessage(s) => Action::FlashMessage(s.clone()),
            Action::Register => Action::Register,
            Action::Login => Action::Login,
            Action::ChangePassword => Action::ChangePassword,
            Action::ChangeContact => Action::ChangeContact,
            Action::RunGame(id) => Action::RunGame(id.clone()),
            Action::EditFile(p) => Action::EditFile(p.duplicate()),
            Action::CopyFile(s, d, pol) => Action::CopyFile(s.duplicate(), d.duplicate(), *pol),
        }
    }
}

/// One selectable item: a key, a display name, and the actions selecting
/// it executes in order.
pub struct Entry {
    pub key: char,
    pub name: String,
    pub actions: Vec<Action>,
}

/// A named, titled, ordered set of entries.
pub struct Menu {
    pub id: String,
    pub title: String,
    pub entries: Vec<Entry>,
}

/// Index of the menu the engine starts in.
pub const START_MENU: usize = 0;

/// Index of the menu shown after a successful login or registration.
pub const AUTH_MENU: usize = 1;

/// Cap on the history-depth bounds the validator works with.
pub const LOW_CAP: u64 = 0x1000_0000;

/// Cap on the length of one entry's action sequence.
pub const LEN_CAP: u64 = 0x1000_0000;

// ---------------------------------------------------------------------
// First-match lookups.
// ---------------------------------------------------------------------

/// Index of the first menu with the given id, or -1.
pub open spec fn spec_menu_idx(menus: Seq<Menu>, id: Seq<char>) -> int
    decreases menus.len(),
{
    if menus.len() == 0 {
        -1
    } else if menus[0].id@ == id {
        0
    } else {
        let r = spec_menu_idx(menus.drop_first(), id);
        if r < 0 {
            -1
        } else {
            r + 1
        }
    }
}

pub proof fn lemma_menu_idx(menus: Seq<Menu>, id: Seq<char>)
    ensures
        -1 <= spec_menu_idx(menus, id) < menus.len(),
        spec_menu_idx(menus, id) >= 0 ==> menus[spec_menu_idx(menus, id)].id@ == id,
        forall|k: int|
            0 <= k < menus.len() && (spec_menu_idx(menus, id) < 0 || k < spec_menu_idx(menus, id))
                ==> (#[trigger] menus[k]).id@ != id,
    decreases menus.len(),
{
    if menus.len() > 0 {
        lemma_menu_idx(menus.drop_first(), id);
        let idx = spec_menu_idx(menus, id);
        assert forall|k: int|
            0 <= k < menus.len() && (idx < 0 || k < idx) implies (#[trigger] menus[k]).id@
            != id by {
            if k >= 1 {
                assert(menus[k] == menus.drop_first()[k - 1]);
            }
        }
    }
}

/// Index of the first game with the given id, or -1.
pub open spec fn spec_game_idx(games: Seq<String>, id: Seq<char>) -> int
    decreases games.len(),
{
    if games.len() == 0 {
        -1
    } else if games[0]@ == id {
        0
    } else {
        let r = spec_game_idx(games.drop_first(), id);
        if r < 0 {
            -1
        } else {
            r + 1
        }
    }
}

pub proof fn lemma_game_idx(games: Seq<String>, id: Seq<char>)
    ensures
        -1 <= spec_game_idx(games, id) < games.len(),
        spec_game_idx(games, id) >= 0 ==> games[spec_game_idx(games, id)]@ == id,
        forall|k: int|
            0 <= k < games.len() && (spec_game_idx(games, id) < 0 || k < spec_game_idx(games, id))
                ==> (#[trigger] games[k])@ != id,
    decreases games.len(),
{
    if games.len() > 0 {
        lemma_game_idx(games.drop_first(), id);
        let idx = spec_game_idx(games, id);
        assert forall|k: int|
            0 <= k < games.len() && (idx < 0 || k < idx) implies (#[trigger] games[k])@
            != id by {
            if k >= 1 {
                assert(games[k] == games.drop_first()[k - 1]);
            }
        }
    }
}

/// Index of the first entry bound to the given key, or -1.
pub open spec fn spec_entry_idx(entries: Seq<Entry>, key: char) -> int
    decreases entries.len(),
{
    if entries.len() == 0 {
        -1
    } else if entries[0].key == key {
        0
    } else {
        let r = spec_entry_idx(entries.drop_first(), key);
        if r < 0 {
            -1
        } else {
            r + 1
        }
    }
}

pub proof fn lemma_entry_idx(entries: Seq<Entry>, key: char)
    ensures
        -1 <= spec_entry_idx(entries, key) < entries.len(),
        spec_entry_idx(entries, key) >= 0 ==> entries[spec_entry_idx(entries, key)].key == key,
        forall|k: int|
            0 <= k < entries.len() && (spec_entry_idx(entries, key) < 0 || k < spec_entry_idx(
                entries,
                key,
            )) ==> (#[trigger] entries[k]).key != key,
    decreases entries.len(),
{
    if entries.len() > 0 {
        lemma_entry_idx(entries.drop_first(), key);
        let idx = spec_entry_idx(entries, key);
        assert forall|k: int|
            0 <= k < entries.len() && (idx < 0 || k < idx) implies (#[trigger] entries[k]).key
            != key by {
            if k >= 1 {
                assert(entries[k] == entries.drop_first()[k - 1]);
            }
        }
    }
}

/// Finds a menu by id.
pub fn menu_index(menus: &Vec<Menu>, id: &String) -> (r: Option<usize>)
    ensures
        match r {
            Some(i) => spec_menu_idx(menus@, id@) == i && i < menus@.len(),
            None => spec_menu_idx(menus@, id@) < 0,
        },
{
    let n = menus.len();
    let mut i: usize = 0;
    while i < n
        invariant
            n == menus@.len(),
            i <= n,
            forall|k: int| 0 <= k < i ==> (#[trigger] menus@[k]).id@ != id@,
        decreases n - i,
    {
        if menus[i].id.eq(id) {
            proof {
                lemma_menu_idx(menus@, id@);
            }
            return Some(i);
        }
        i = i + 1;
    }
    proof {
        lemma_menu_idx(menus@, id@);
    }
    None
}

/// Finds a game by id.
pub fn game_index(games: &Vec<String>, id: &String) -> (r: Option<usize>)
    ensures
        match r {
            Some(i) => spec_game_idx(games@, id@) == i && i < games@.len(),
            None => spec_game_idx(games@, id@) < 0,
        },
{
    let n = games.len();
    let mut i: usize = 0;
    while i < n
        invariant
            n == games@.len(),
            i <= n,
            forall|k: int| 0 <= k < i ==> (#[trigger] games@[k])@ != id@,
        decreases n - i,
    {
        if games[i].eq(id) {
            proof {
                lemma_game_idx(games@, id@);
            }
            return Some(i);
        }
        i = i + 1;
    }
    proof {
        lemma_game_idx(games@, id@);
    }
    None
}

/// Finds the entry of a menu bound to a key.
pub fn entry_index(m: &Menu, key: char) -> (r: Option<usize>)
    ensures
        match r {
            Some(i) => spec_entry_idx(m.entries@, key) == i && i < m.entries@.len(),
            None => spec_entry_idx(m.entries@, key) < 0,
        },
{
    let n = m.entries.len();
    let mut i: usize = 0;
    while i < n
        invariant
            n == m.entries@.len(),
            i <= n,
            forall|k: int| 0 <= k < i ==> (#[trigger] m.entries@[k]).key != key,
        decreases n - i,
    {
        if m.entries[i].key == key {
            proof {
                lemma_entry_idx(m.entries@, key);
            }
            return Some(i);
        }
        i = i + 1;
    }
    proof {
        lemma_entry_idx(m.entries@, key);
    }
    None
}

// ---------------------------------------------------------------------
// The safety predicate over one action sequence.
// ---------------------------------------------------------------------

/// Safety of the suffix of an action sequence starting at `i`, given
/// that the history is at least `lb` deep when that suffix starts.
///
/// `GoTo` must name a menu whose depth bound admits the pushed state;
/// `Return` needs a non-empty history; after `Login` or `Register` the
/// rest must be safe both on the untouched history (the attempt may be
/// rejected) and on a cleared one (success clears the history). Nothing
/// after a `Quit` runs.
pub open spec fn seq_safe_from(
    menus: Seq<Menu>,
    low: Seq<u64>,
    actions: Seq<Action>,
    i: int,
    lb: nat,
) -> bool
    decreases actions.len() - i,
{
    if i < 0 || i >= actions.len() {
        true
    } else {
        match actions[i] {
            Action::GoTo(id) => {
                let j = spec_menu_idx(menus, id@);
                &&& j >= 0
                &&& low[j] <= lb + 1
                &&& seq_safe_from(menus, low, actions, i + 1, lb + 1)
            },
            Action::Return => lb >= 1 && seq_safe_from(
                menus,
                low,
                actions,
                i + 1,
                (lb - 1) as nat,
            ),
            Action::Quit => true,
            Action::Register => seq_safe_from(menus, low, actions, i + 1, lb) && seq_safe_from(
                menus,
                low,
                actions,
                i + 1,
                0,
            ),
            Action::Login => seq_safe_from(menus, low, actions, i + 1, lb) && seq_safe_from(
                menus,
                low,
                actions,
                i + 1,
                0,
            ),
            _ => seq_safe_from(menus, low, actions, i + 1, lb),
        }
    }
}

/// Every entry of `m` is safe from depth bound `lb0`.
pub open spec fn menu_safe(menus: Seq<Menu>, low: Seq<u64>, m: Menu, lb0: nat) -> bool {
    forall|e: int|
        0 <= e < m.entries@.len() ==> seq_safe_from(
            menus,
            low,
            (#[trigger] m.entries@[e]).actions@,
            0,
            lb0,
        )
}

/// Every menu is safe from its own depth bound.
pub open spec fn menus_safe(menus: Seq<Menu>, low: Seq<u64>) -> bool {
    forall|m: int|
        0 <= m < menus.len() ==> menu_safe(menus, low, #[trigger] menus[m], low[m] as nat)
}

// ---------------------------------------------------------------------
// The remaining structural predicates.
// ---------------------------------------------------------------------

pub open spec fn menu_ids_unique(menus: Seq<Menu>) -> bool {
    forall|i: int, j: int|
        0 <= i < j < menus.len() ==> (#[trigger] menus[i]).id@ != (#[trigger] menus[j]).id@
}

pub open spec fn entry_keys_unique(m: Menu) -> bool {
    forall|i: int, j: int|
        0 <= i < j < m.entries@.len() ==> (#[trigger] m.entries@[i]).key != (
        #[trigger] m.entries@[j]).key
}

pub open spec fn keys_unique(menus: Seq<Menu>) -> bool {
    forall|m: int| 0 <= m < menus.len() ==> entry_keys_unique(#[trigger] menus[m])
}

pub open spec fn actions_games_ok(actions: Seq<Action>, games: Seq<String>) -> bool {
    forall|a: int|
        0 <= a < actions.len() ==> match #[trigger] actions[a] {
            Action::RunGame(id) => spec_game_idx(games, id@) >= 0,
            _ => true,
        }
}

pub open spec fn menu_games_ok(m: Menu, games: Seq<String>) -> bool {
    forall|e: int|
        0 <= e < m.entries@.len() ==> actions_games_ok((#[trigger] m.entries@[e]).actions@, games)
}

pub open spec fn games_ok(menus: Seq<Menu>, games: Seq<String>) -> bool {
    forall|m: int| 0 <= m < menus.len() ==> menu_games_ok(#[trigger] menus[m], games)
}

pub open spec fn actions_len_ok(actions: Seq<Action>) -> bool {
    actions.len() <= LEN_CAP
}

pub open spec fn menu_lens_ok(m: Menu) -> bool {
    forall|e: int|
        0 <= e < m.entries@.len() ==> actions_len_ok((#[trigger] m.entries@[e]).actions@)
}

pub open spec fn lens_ok(menus: Seq<Menu>) -> bool {
    forall|m: int| 0 <= m < menus.len() ==> menu_lens_ok(#[trigger] menus[m])
}

pub open spec fn low_ok(low: Seq<u64>) -> bool {
    forall|k: int| 0 <= k < low.len() ==> (#[trigger] low[k]) <= LOW_CAP
}

/// What load-time validation establishes about a configuration, relative
/// to a vector of per-menu history-depth lower bounds.
pub open spec fn config_checked(menus: Seq<Menu>, games: Seq<String>, low: Seq<u64>) -> bool {
    &&& menus.len() >= 2
    &&& low.len() == menus.len()
    &&& low[START_MENU as int] == 0
    &&& low[AUTH_MENU as int] == 0
    &&& low_ok(low)
    &&& lens_ok(menus)
    &&& menu_ids_unique(menus)
    &&& keys_unique(menus)
    &&& games_ok(menus, games)
    &&& menus_safe(menus, low)
}

// ---------------------------------------------------------------------
// The exec checking pass.
// ---------------------------------------------------------------------

fn check_seq_safe(
    menus: &Vec<Menu>,
    low: &Vec<u64>,
    actions: &Vec<Action>,
    i: usize,
    lb: u64,
) -> (r: bool)
    requires
        low@.len() == menus@.len(),
        i <= actions@.len(),
        actions@.len() <= LEN_CAP,
        lb + actions@.len() - i <= LOW_CAP + LEN_CAP,
    ensures
        r == seq_safe_from(menus@, low@, actions@, i as int, lb as nat),
    decreases actions@.len() - i,
{
    if i >= actions.len() {
        return true;
    }
    match &actions[i] {
        Action::GoTo(id) => match menu_index(menus, id) {
            None => false,
            Some(j) => low[j] <= lb + 1 && check_seq_safe(menus, low, actions, i + 1, lb + 1),
        },
        Action::Return => lb >= 1 && check_seq_safe(menus, low, actions, i + 1, lb - 1),
        Action::Quit => true,
        Action::Register => check_seq_safe(menus, low, actions, i + 1, lb) && check_seq_safe(
            menus,
            low,
            actions,
            i + 1,
            0,
        ),
        Action::Login => check_seq_safe(menus, low, actions, i + 1, lb) && check_seq_safe(
            menus,
            low,
            actions,
            i + 1,
            0,
        ),
        _ => check_seq_safe(menus, low, actions, i + 1, lb),
    }
}

fn check_menu_safe(menus: &Vec<Menu>, low: &Vec<u64>, m: &Menu, lb0: u64) -> (r: bool)
    requires
        low@.len() == menus@.len(),
        lb0 <= LOW_CAP,
        menu_lens_ok(*m),
    ensures
        r == menu_safe(menus@, low@, *m, lb0 as nat),
{
    let n = m.entries.len();
    let mut e: usize = 0;
    while e < n
        invariant
            n == m.entries@.len(),
            e <= n,
            low@.len() == menus@.len(),
            lb0 <= LOW_CAP,
            menu_lens_ok(*m),
            forall|k: int|
                0 <= k < e ==> seq_safe_from(
                    menus@,
                    low@,
                    (#[trigger] m.entries@[k]).actions@,
                    0,
                    lb0 as nat,
                ),
        decreases n - e,
    {
        if !check_seq_safe(menus, low, &m.entries[e].actions, 0, lb0) {
            return false;
        }
        e = e + 1;
    }
    true
}

fn check_menus_safe(menus: &Vec<Menu>, low: &Vec<u64>) -> (r: bool)
    requires
        low@.len() == menus@.len(),
        low_ok(low@),
        lens_ok(menus@),
    ensures
        r == menus_safe(menus@, low@),
{
    let n = menus.len();
    let mut m: usize = 0;
    while m < n
        invariant
            n == menus@.len(),
            m <= n,
            low@.len() == menus@.len(),
            low_ok(low@),
            lens_ok(menus@),
            forall|k: int|
                0 <= k < m ==> menu_safe(menus@, low@, #[trigger] menus@[k], low@[k] as nat),
        decreases n - m,
    {
        if !check_menu_safe(menus, low, &menus[m], low[m]) {
            return false;
        }
        m = m + 1;
    }
    true
}

fn check_ids_unique(menus: &Vec<Menu>) -> (r: bool)
    ensures
        r == menu_ids_unique(menus@),
{
    let n = menus.len();
    let mut i: usize = 0;
    while i < n
        invariant
            n == menus@.len(),
            i <= n,
            forall|a: int, b: int|
                0 <= a < b < n && a < i ==> (#[trigger] menus@[a]).id@ != (
                #[trigger] menus@[b]).id@,
        decreases n - i,
    {
        let mut j: usize = i + 1;
        while j < n
            invariant
                n == menus@.len(),
                i < n,
                i < j <= n,
                forall|a: int, b: int|
                    0 <= a < b < n && a < i ==> (#[trigger] menus@[a]).id@ != (
                    #[trigger] menus@[b]).id@,
                forall|b: int|
                    i < b < j ==> (#[trigger] menus@[b]).id@ != menus@[i as int].id@,
            decreases n - j,
        {
            if menus[i].id.eq(&menus[j].id) {
                return false;
            }
            j = j + 1;
        }
        i = i + 1;
    }
    true
}

fn check_entry_keys_unique(m: &Menu) -> (r: bool)
    ensures
        r == entry_keys_unique(*m),
{
    let n = m.entries.len();
    let mut i: usize = 0;
    while i < n
        invariant
            n == m.entries@.len(),
            i <= n,
            forall|a: int, b: int|
                0 <= a < b < n && a < i ==> (#[trigger] m.entries@[a]).key != (
                #[trigger] m.entries@[b]).key,
        decreases n - i,
    {
        let mut j: usize = i + 1;
        while j < n
            invariant
                n == m.entries@.len(),
                i < n,
                i < j <= n,
                forall|a: int, b: int|
                    0 <= a < b < n && a < i ==> (#[trigger] m.entries@[a]).key != (
                    #[trigger] m.entries@[b]).key,
                forall|b: int|
                    i < b < j ==> (#[trigger] m.entries@[b]).key != m.entries@[i as int].key,
            decreases n - j,
        {
            if m.entries[i].key == m.entries[j].key {
                return false;
            }
            j = j + 1;
        }
        i = i + 1;
    }
    true
}

fn check_keys_unique(menus: &Vec<Menu>) -> (r: bool)
    ensures
        r == keys_unique(menus@),
{
    let n = menus.len();
    let mut m: usize = 0;
    while m < n
        invariant
            n == menus@.len(),
            m <= n,
            forall|k: int| 0 <= k < m ==> entry_keys_unique(#[trigger] menus@[k]),
        decreases n - m,
    {
        if !check_entry_keys_unique(&menus[m]) {
            return false;
        }
        m = m + 1;
    }
    true
}

fn check_actions_games(actions: &Vec<Action>, games: &Vec<String>) -> (r: bool)
    ensures
        r == actions_games_ok(actions@, games@),
{
    let n = actions.len();
    let mut a: usize = 0;
    while a < n
        invariant
            n == actions@.len(),
            a <= n,
            forall|k: int|
                0 <= k < a ==> match #[trigger] actions@[k] {
                    Action::RunGame(id) => spec_game_idx(games@, id@) >= 0,
                    _ => true,
                },
        decreases n - a,
    {
        match &actions[a] {
            Action::RunGame(id) => {
                if game_index(games, id).is_none() {
                    return false;
                }
            },
            _ => {},
        }
        a = a + 1;
    }
    true
}

fn check_menu_games(m: &Menu, games: &Vec<String>) -> (r: bool)
    ensures
        r == menu_games_ok(*m, games@),
{
    let n = m.entries.len();
    let mut e: usize = 0;
    while e < n
        invariant
            n == m.entries@.len(),
            e <= n,
            forall|k: int|
                0 <= k < e ==> actions_games_ok((#[trigger] m.entries@[k]).actions@, games@),
        decreases n - e,
    {
        if !check_actions_games(&m.entries[e].actions, games) {
            return false;
        }
        e = e + 1;
    }
    true
}

fn check_games(menus: &Vec<Menu>, games: &Vec<String>) -> (r: bool)
    ensures
        r == games_ok(menus@, games@),
{
    let n = menus.len();
    let mut m: usize = 0;
    while m < n
        invariant
            n == menus@.len(),
            m <= n,
            forall|k: int| 0 <= k < m ==> menu_games_ok(#[trigger] menus@[k], games@),
        decreases n - m,
    {
        if !check_menu_games(&menus[m], games) {
            return false;
        }
        m = m + 1;
    }
    true
}

fn check_menu_lens(m: &Menu) -> (r: bool)
    ensures
        r == menu_lens_ok(*m),
{
    let n = m.entries.len();
    let mut e: usize = 0;
    while e < n
        invariant
            n == m.entries@.len(),
            e <= n,
            forall|k: int| 0 <= k < e ==> actions_len_ok((#[trigger] m.entries@[k]).actions@),
        decreases n - e,
    {
        if m.entries[e].actions.len() as u64 > LEN_CAP {
            return false;
        }
        e = e + 1;
    }
    true
}

fn check_lens(menus: &Vec<Menu>) -> (r: bool)
    ensures
        r == lens_ok(menus@),
{
    let n = menus.len();
    let mut m: usize = 0;
    while m < n
        invariant
            n == menus@.len(),
            m <= n,
            forall|k: int| 0 <= k < m ==> menu_lens_ok(#[trigger] menus@[k]),
        decreases n - m,
    {
        if !check_menu_lens(&menus[m]) {
            return false;
        }
        m = m + 1;
    }
    true
}

fn check_low_ok(low: &Vec<u64>) -> (r: bool)
    ensures
        r == low_ok(low@),
{
    let n = low.len();
    let mut k: usize = 0;
    while k < n
        invariant
            n == low@.len(),
            k <= n,
            forall|i: int| 0 <= i < k ==> (#[trigger] low@[i]) <= LOW_CAP,
        decreases n - k,
    {
        if low[k] > LOW_CAP {
            return false;
        }
        k = k + 1;
    }
    true
}

/// Decides `config_checked` exactly: the configuration is structurally
/// sound with respect to the given depth bounds, or it is not.
pub fn check_config(menus: &Vec<Menu>, games: &Vec<String>, low: &Vec<u64>) -> (r: bool)
    ensures
        r == config_checked(menus@, games@, low@),
{
    if menus.len() < 2 {
        return false;
    }
    if low.len() != menus.len() {
        return false;
    }
    if low[0] != 0 {
        return false;
    }
    if low[1] != 0 {
        return false;
    }
    if !check_low_ok(low) {
        return false;
    }
    if !check_lens(menus) {
        return false;
    }
    if !check_ids_unique(menus) {
        return false;
    }
    if !check_keys_unique(menus) {
        return false;
    }
    if !check_games(menus, games) {
        return false;
    }
    if !check_menus_safe(menus, low) {
        return false;
    }
    true
}

// ---------------------------------------------------------------------
// Finding the depth bounds.
// ---------------------------------------------------------------------

/// Proposes per-menu history-depth lower bounds by relaxation: the start
/// menu and the post-authentication menu sit at depth zero, and every
/// `GoTo` reached at depth `d` lets its target sit at depth `d + 1`.
/// The result is only a proposal: `check_config` alone decides whether
/// the bounds are consistent.
pub fn compute_low(menus: &Vec<Menu>) -> (low: Vec<u64>)
    ensures
        low@.len() == menus@.len(),
        forall|k: int| 0 <= k < low@.len() ==> (#[trigger] low@[k]) <= LOW_CAP,
        menus@.len() >= 1 ==> low@[0] == 0,
        menus@.len() >= 2 ==> low@[1] == 0,
{
    let n = menus.len();
    let mut low: Vec<u64> = Vec::new();
    while low.len() < n
        invariant
            low@.len() <= n,
            forall|k: int| 0 <= k < low@.len() ==> (#[trigger] low@[k]) == LOW_CAP,
        decreases n - low@.len(),
    {
        low.push(LOW_CAP);
    }
    if n >= 1 {
        low[0] = 0;
    }
    if n >= 2 {
        low[1] = 0;
    }
    let rounds: usize = if n < 0x1000_0000 {
        n + 2
    } else {
        0x1000_0002
    };
    let mut round: usize = 0;
    while round < rounds
        invariant
            n == menus@.len(),
            low@.len() == n,
            forall|k: int| 0 <= k < low@.len() ==> (#[trigger] low@[k]) <= LOW_CAP,
            n >= 1 ==> low@[0] == 0,
            n >= 2 ==> low@[1] == 0,
        decreases rounds - round,
    {
        let mut m: usize = 0;
        while m < n
            invariant
                n == menus@.len(),
                m <= n,
                low@.len() == n,
                forall|k: int| 0 <= k < low@.len() ==> (#[trigger] low@[k]) <= LOW_CAP,
                n >= 1 ==> low@[0] == 0,
                n >= 2 ==> low@[1] == 0,
            decreases n - m,
        {
            let ecount = menus[m].entries.len();
            let mut e: usize = 0;
            while e < ecount
                invariant
                    n == menus@.len(),
                    m < n,
                    ecount == menus@[m as int].entries@.len(),
                    e <= ecount,
                    low@.len() == n,
                    forall|k: int| 0 <= k < low@.len() ==> (#[trigger] low@[k]) <= LOW_CAP,
                    n >= 1 ==> low@[0] == 0,
                    n >= 2 ==> low@[1] == 0,
                decreases ecount - e,
            {
                let acount = menus[m].entries[e].actions.len();
                let mut lb: u64 = low[m];
                let mut a: usize = 0;
                while a < acount
                    invariant
                        n == menus@.len(),
                        m < n,
                        e < menus@[m as int].entries@.len(),
                        acount == menus@[m as int].entries@[e as int].actions@.len(),
                        a <= acount,
                        lb <= LOW_CAP,
                        low@.len() == n,
                        forall|k: int| 0 <= k < low@.len() ==> (#[trigger] low@[k]) <= LOW_CAP,
                        n >= 1 ==> low@[0] == 0,
                        n >= 2 ==> low@[1] == 0,
                    decreases acount - a,
                {
                    match &menus[m].entries[e].actions[a] {
                        Action::GoTo(id) => {
                            let lbn: u64 = if lb < LOW_CAP {
                                lb + 1
                            } else {
                                LOW_CAP
                            };
                            match menu_index(menus, id) {
                                Some(j) => {
                                    if lbn < low[j] {
                                        low[j] = lbn;
                                    }
                                },
                                None => {},
                            }
                            lb = lbn;
                        },
                        Action::Return => {
                            if lb > 0 {
                                lb = lb - 1;
                            }
                        },
                        Action::Register => {
                            lb = 0;
                        },
                        Action::Login => {
                            lb = 0;
                        },
                        Action::Quit => {
                            a = acount;
                        },
                        _ => {},
                    }
                    if a < acount {
                        a = a + 1;
                    }
                }
                e = e + 1;
            }
            m = m + 1;
        }
        round = round + 1;
    }
    low
}

} // verus!
