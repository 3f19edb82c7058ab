//! User directory: credential records keyed case-insensitively by
//! username, with password hashing delegated to the argon2 crate.
//!
//! The directory itself is an in-memory table with a verified invariant:
//! usernames are valid (non-empty, ASCII-alphanumeric, at most fifteen
//! characters) and no two records share a username up to ASCII case.
//! Persisting the table is left to unverified glue around the library,
//! which feeds records back in through [`Directory::load_record`].

use vstd::prelude::*;
use argon2::PasswordHasher;
use argon2::PasswordVerifier;

verus! {

// ---------------------------------------------------------------------
// Case-insensitive username equality (ASCII case only, the collation a
// credential store traditionally uses for usernames).
// ---------------------------------------------------------------------

/// `c` is an ASCII upper-case letter.
pub open spec fn spec_is_upper(c: char) -> bool {
    65 <= c as u32 && c as u32 <= 90
}

/// Two characters are equal up to ASCII case.
pub open spec fn spec_eq_fold_char(c1: char, c2: char) -> bool {
    ||| c1 == c2
    ||| (spec_is_upper(c1) && c2 as u32 == c1 as u32 + 32)
    ||| (spec_is_upper(c2) && c1 as u32 == c2 as u32 + 32)
}

/// Two strings are equal up to ASCII case.
pub open spec fn spec_eq_fold(a: Seq<char>, b: Seq<char>) -> bool {
    &&& a.len() == b.len()
    &&& forall|i: int| 0 <= i < a.len() ==> spec_eq_fold_char(#[trigger] a[i], b[i])
}

fn eq_fold_chars(c1: char, c2: char) -> (r: bool)
    ensures
        r == spec_eq_fold_char(c1, c2),
{
    let x = c1 as u32;
    let y = c2 as u32;
    if x == y {
        true
    } else if 65 <= x && x <= 90 && y == x + 32 {
        true
    } else if 65 <= y && y <= 90 && x == y + 32 {
        true
    } else {
        false
    }
}

/// Compares two strings up to ASCII case.
pub fn eq_fold_strs(a: &str, b: &str) -> (r: bool)
    ensures
        r == spec_eq_fold(a@, b@),
{
    let an = a.unicode_len();
    let bn = b.unicode_len();
    if an != bn {
        return false;
    }
    let mut i: usize = 0;
    while i < an
        invariant
            an == a@.len(),
            an == b@.len(),
            i <= an,
            forall|k: int| 0 <= k < i ==> spec_eq_fold_char(#[trigger] a@[k], b@[k]),
        decreases an - i,
    {
        let c1 = a.get_char(i);
        let c2 = b.get_char(i);
        if !eq_fold_chars(c1, c2) {
            return false;
        }
        i = i + 1;
    }
    true
}

// ---------------------------------------------------------------------
// Username validation.
// ---------------------------------------------------------------------

/// `c` is an ASCII letter or digit.
pub open spec fn spec_alnum(c: char) -> bool {
    ||| (48 <= c as u32 && c as u32 <= 57)
    ||| spec_is_upper(c)
    ||| (97 <= c as u32 && c as u32 <= 122)
}

/// A username the gateway accepts at registration: non-empty,
/// ASCII-alphanumeric only, and at most fifteen characters long.
pub open spec fn spec_username_ok(name: Seq<char>) -> bool {
    &&& 1 <= name.len() <= 15
    &&& forall|i: int| 0 <= i < name.len() ==> spec_alnum(#[trigger] name[i])
}

/// Decides whether a new username is acceptable: non-empty, only ASCII
/// letters and digits, and no longer than fifteen characters. Exactly
/// fifteen characters is still acceptable; sixteen is not.
pub fn username_valid(name: &str) -> (r: bool)
    ensures
        r == spec_username_ok(name@),
{
    let n = name.unicode_len();
    if n < 1 || n > 15 {
        return false;
    }
    let mut i: usize = 0;
    while i < n
        invariant
            n == name@.len(),
            i <= n,
            forall|k: int| 0 <= k < i ==> spec_alnum(#[trigger] name@[k]),
        decreases n - i,
    {
        let c = name.get_char(i) as u32;
        if !((48 <= c && c <= 57) || (65 <= c && c <= 90) || (97 <= c && c <= 122)) {
            return false;
        }
        i = i + 1;
    }
    true
}

// ---------------------------------------------------------------------
// Records and the directory.
// ---------------------------------------------------------------------

/// One credential record. A record whose `pwhash` is `None` belongs to a
/// disabled account: no password verifies against it.
pub struct UserRecord {
    pub username: String,
    pub pwhash: Option<String>,
    pub contact: String,
}

/// The mathematical content of a record.
#[verifier::ext_equal]
pub struct RecordModel {
    pub username: Seq<char>,
    pub pwhash: Option<Seq<char>>,
    pub contact: Seq<char>,
}

impl View for UserRecord {
    type V = RecordModel;

    open spec fn view(&self) -> RecordModel {
        RecordModel {
            username: self.username@,
            pwhash: match self.pwhash {
                Option::Some(h) => Option::Some(h@),
                Option::None => Option::None,
            },
            contact: self.contact@,
        }
    }
}

impl UserRecord {
    /// An exact copy of the record.
    pub fn duplicate(&self) -> (r: UserRecord)
        ensures
            r@ == self@,
    {
        let pwhash = match &self.pwhash {
            Some(h) => Some(h.clone()),
            None => None,
        };
        UserRecord { username: self.username.clone(), pwhash, contact: self.contact.clone() }
    }
}

/// Index of the first record whose username equals `name` up to ASCII
/// case, or -1 when there is none.
pub open spec fn spec_lookup_idx(recs: Seq<RecordModel>, name: Seq<char>) -> int
    decreases recs.len(),
{
    if recs.len() == 0 {
        -1
    } else if spec_eq_fold(recs[0].username, name) {
        0
    } else {
        let r = spec_lookup_idx(recs.drop_first(), name);
        if r < 0 {
            -1
        } else {
            r + 1
        }
    }
}

/// The first record filed under `name`, up to ASCII case.
pub open spec fn spec_lookup(recs: Seq<RecordModel>, name: Seq<char>) -> Option<RecordModel> {
    let idx = spec_lookup_idx(recs, name);
    if idx < 0 {
        None
    } else {
        Some(recs[idx])
    }
}

/// What `spec_lookup_idx` finds: the first matching index, or -1 when no
/// record matches.
pub proof fn lemma_lookup_idx(recs: Seq<RecordModel>, name: Seq<char>)
    ensures
        -1 <= spec_lookup_idx(recs, name) < recs.len(),
        spec_lookup_idx(recs, name) >= 0 ==> spec_eq_fold(
            recs[spec_lookup_idx(recs, name)].username,
            name,
        ),
        forall|k: int|
            0 <= k < recs.len() && (spec_lookup_idx(recs, name) < 0 || k < spec_lookup_idx(
                recs,
                name,
            )) ==> !spec_eq_fold((#[trigger] recs[k]).username, name),
    decreases recs.len(),
{
    if recs.len() > 0 {
        lemma_lookup_idx(recs.drop_first(), name);
        let idx = spec_lookup_idx(recs, name);
        assert forall|k: int|
            0 <= k < recs.len() && (idx < 0 || k < idx) implies !spec_eq_fold(
            (#[trigger] recs[k]).username,
            name,
        ) by {
            if k >= 1 {
                assert(recs[k] == recs.drop_first()[k - 1]);
            }
        }
    }
}

/// Equality up to ASCII case is reflexive.
pub proof fn lemma_eq_fold_refl(s: Seq<char>)
    ensures
        spec_eq_fold(s, s),
{
}

/// How appending a record moves the lookup index: an earlier match stays
/// where it was; otherwise the new record is found exactly when its own
/// username matches.
pub proof fn lemma_lookup_idx_push(recs: Seq<RecordModel>, rec: RecordModel, name: Seq<char>)
    ensures
        spec_lookup_idx(recs, name) >= 0 ==> spec_lookup_idx(recs.push(rec), name)
            == spec_lookup_idx(recs, name),
        spec_lookup_idx(recs, name) < 0 && spec_eq_fold(rec.username, name) ==> spec_lookup_idx(
            recs.push(rec),
            name,
        ) == recs.len(),
        spec_lookup_idx(recs, name) < 0 && !spec_eq_fold(rec.username, name)
            ==> spec_lookup_idx(recs.push(rec), name) < 0,
    decreases recs.len(),
{
    if recs.len() == 0 {
        assert(recs.push(rec)[0] == rec);
        assert(recs.push(rec).drop_first() =~= Seq::<RecordModel>::empty());
        assert(spec_lookup_idx(Seq::<RecordModel>::empty(), name) == -1);
    } else {
        lemma_lookup_idx_push(recs.drop_first(), rec, name);
        assert(recs.push(rec).drop_first() =~= recs.drop_first().push(rec));
        assert(recs.push(rec)[0] == recs[0]);
        if !spec_eq_fold(recs[0].username, name) {
            let tail = recs.drop_first();
            assert(spec_lookup_idx(recs, name) == (if spec_lookup_idx(tail, name) < 0 {
                -1int
            } else {
                spec_lookup_idx(tail, name) + 1
            }));
            assert(spec_lookup_idx(recs.push(rec), name) == (if spec_lookup_idx(
                tail.push(rec),
                name,
            ) < 0 {
                -1int
            } else {
                spec_lookup_idx(tail.push(rec), name) + 1
            }));
        }
    }
}

/// Lookup reads only usernames: two directories whose records carry the
/// same usernames position by position resolve every name alike.
pub proof fn lemma_lookup_same_usernames(a: Seq<RecordModel>, b: Seq<RecordModel>, name: Seq<char>)
    requires
        a.len() == b.len(),
        forall|k: int| 0 <= k < a.len() ==> (#[trigger] a[k]).username == b[k].username,
    ensures
        spec_lookup_idx(a, name) == spec_lookup_idx(b, name),
    decreases a.len(),
{
    if a.len() > 0 {
        assert forall|k: int|
            0 <= k < a.drop_first().len() implies (#[trigger] a.drop_first()[k]).username
            == b.drop_first()[k].username by {
            assert(a.drop_first()[k] == a[k + 1]);
            assert(b.drop_first()[k] == b[k + 1]);
        }
        lemma_lookup_same_usernames(a.drop_first(), b.drop_first(), name);
        assert(a[0].username == b[0].username);
    }
}

/// The in-memory user directory.
pub struct Directory {
    records: Vec<UserRecord>,
}

impl View for Directory {
    type V = Seq<RecordModel>;

    closed spec fn view(&self) -> Seq<RecordModel> {
        self.records@.map_values(|r: UserRecord| r@)
    }
}

/// The directory invariant: every stored username is a valid one, and no
/// two records collide up to ASCII case.
pub open spec fn spec_dir_wf(recs: Seq<RecordModel>) -> bool {
    &&& forall|i: int|
        0 <= i < recs.len() ==> spec_username_ok((#[trigger] recs[i]).username)
    &&& forall|i: int, j: int|
        0 <= i < j < recs.len() ==> !spec_eq_fold(
            (#[trigger] recs[i]).username,
            (#[trigger] recs[j]).username,
        )
}

impl Directory {
    pub open spec fn wf(&self) -> bool {
        spec_dir_wf(self@)
    }

    /// An empty directory.
    pub fn new() -> (d: Directory)
        ensures
            d.wf(),
            d@ == Seq::<RecordModel>::empty(),
    {
        let d = Directory { records: Vec::new() };
        proof {
            assert(d@ =~= Seq::<RecordModel>::empty());
        }
        d
    }

    /// How many records the directory holds.
    pub fn len(&self) -> (n: usize)
        ensures
            n == self@.len(),
    {
        self.records.len()
    }

    /// Adds a record handed back by whatever persisted the directory.
    /// Accepts it exactly when it would keep the invariant: a valid
    /// username that no present record already carries.
    pub fn load_record(&mut self, username: String, pwhash: Option<String>, contact: String) -> (r:
        bool)
        requires
            old(self).wf(),
        ensures
            final(self).wf(),
            r == (spec_username_ok(username@) && spec_lookup_idx(old(self)@, username@) < 0),
            r ==> final(self)@ == old(self)@.push(
                RecordModel { username: username@, pwhash: pwhash.deep_view(), contact: contact@ },
            ),
            !r ==> final(self)@ == old(self)@,
    {
        if !username_valid(username.as_str()) {
            return false;
        }
        if self.find_index(username.as_str()).is_some() {
            proof {
                lemma_lookup_idx(self@, username@);
            }
            return false;
        }
        let rec = UserRecord { username, pwhash, contact };
        let ghost before = self@;
        let ghost recm = rec@;
        self.records.push(rec);
        proof {
            assert(self@ =~= before.push(recm));
            lemma_lookup_idx(before, recm.username);
            assert(recm.pwhash == match rec.pwhash {
                Option::Some(h) => Option::Some(h@),
                Option::None => Option::None,
            });
            assert(recm.pwhash =~= rec.pwhash.deep_view());
        }
        true
    }

    /// Finds the position of the record filed under `username`, up to
    /// ASCII case.
    fn find_index(&self, username: &str) -> (r: Option<usize>)
        ensures
            match r {
                Some(i) => 0 <= i < self@.len() && spec_lookup_idx(self@, username@) == i,
                None => spec_lookup_idx(self@, username@) < 0,
            },
    {
        let n = self.records.len();
        let mut i: usize = 0;
        while i < n
            invariant
                n == self@.len(),
                n == self.records@.len(),
                i <= n,
                self@ == self.records@.map_values(|r: UserRecord| r@),
                forall|k: int|
                    0 <= k < i ==> !spec_eq_fold((#[trigger] self@[k]).username, username@),
            decreases n - i,
        {
            assert(self@[i as int] == self.records@[i as int]@);
            if eq_fold_strs(self.records[i].username.as_str(), username) {
                proof {
                    lemma_lookup_idx(self@, username@);
                }
                return Some(i);
            }
            i = i + 1;
        }
        proof {
            lemma_lookup_idx(self@, username@);
        }
        None
    }
}

/// Looks a user up by name, case-insensitively, and hands back a copy of
/// the record, or `None` when no record is filed under that name.
pub fn get_user(dir: &Directory, username: &str) -> (r: Option<UserRecord>)
    ensures
        match r {
            Some(u) => spec_lookup(dir@, username@) == Some(u@),
            None => spec_lookup(dir@, username@) is None,
        },
{
    match dir.find_index(username) {
        Some(i) => Some(dir.records_at(i).duplicate()),
        None => None,
    }
}

impl Directory {
    /// The record at a known position.
    fn records_at(&self, i: usize) -> (r: &UserRecord)
        requires
            i < self@.len(),
        ensures
            r@ == self@[i as int],
    {
        assert(self@[i as int] == self.records@[i as int]@);
        &self.records[i]
    }
}

// ---------------------------------------------------------------------
// Password hashing, behind the argon2 crate.
// ---------------------------------------------------------------------

/// Whether the password-hash verifier accepts `password` against the PHC
/// hash string `hash`. The outcome is a pure function of the two strings;
/// its definition is the argon2 computation itself and is deliberately
/// not written out here.
pub uninterp spec fn phc_verifies(hash: Seq<char>, password: Seq<char>) -> bool;

/// Relies on argon2's `PasswordVerifier::verify_password` together with
/// phc's `PasswordHash::new`: parsing the PHC string and recomputing the
/// hash of `password` under the salt and parameters stored in it is a
/// deterministic function of the two strings alone; a string that does
/// not parse verifies no password.
#[verifier::external_body]
fn argon2_verify(hash: &str, password: &str) -> (r: bool)
    ensures
        r == phc_verifies(hash@, password@),
{
    match argon2::PasswordHash::new(hash) {
        Ok(parsed) => {
            argon2::Argon2::default().verify_password(password.as_bytes(), &parsed).is_ok()
        },
        Err(_) => false,
    }
}

/// Relies on argon2's `PasswordHasher::hash_password`: it hashes the
/// password under a freshly drawn random salt and returns the PHC string
/// carrying algorithm, parameters, salt and hash, so that
/// `verify_password` on that same string recomputes and matches the hash
/// of exactly this password. Nothing more is promised of the string: the
/// salt makes it different on every call.
#[verifier::external_body]
fn argon2_hash(password: &str) -> (r: Option<String>)
    ensures
        r matches Some(h) ==> phc_verifies(h@, password@),
{
    match argon2::Argon2::default().hash_password(password.as_bytes()) {
        Ok(h) => Some(h.to_string()),
        Err(_) => None,
    }
}

/// Whether `password` opens the account of `user`: a disabled account
/// (one without a stored hash) rejects every password, uniformly.
pub fn try_login(user: &UserRecord, password: &str) -> (r: bool)
    ensures
        r == (user@.pwhash matches Some(h) && phc_verifies(h, password@)),
{
    match &user.pwhash {
        Some(h) => argon2_verify(h.as_str(), password),
        None => false,
    }
}

/// Creates the credential record for a new user and hands a copy back.
/// Returns `None` only when the hasher itself fails, in which case the
/// directory is left unchanged.
pub fn register(dir: &mut Directory, username: &str, password: &str, contact: &str) -> (r: Option<
    UserRecord,
>)
    requires
        old(dir).wf(),
        spec_username_ok(username@),
        spec_lookup_idx(old(dir)@, username@) < 0,
    ensures
        final(dir).wf(),
        match r {
            Some(u) => {
                &&& final(dir)@ == old(dir)@.push(u@)
                &&& u@.username == username@
                &&& u@.contact == contact@
                &&& u@.pwhash matches Some(h) && phc_verifies(h, password@)
            },
            None => final(dir)@ == old(dir)@,
        },
{
    match argon2_hash(password) {
        None => None,
        Some(h) => {
            let rec = UserRecord {
                username: username.to_owned(),
                pwhash: Some(h),
                contact: contact.to_owned(),
            };
            let copy = rec.duplicate();
            let ghost before = dir@;
            let ghost recm = rec@;
            dir.records.push(rec);
            proof {
                assert(dir@ =~= before.push(recm));
                lemma_lookup_idx(before, recm.username);
            }
            Some(copy)
        },
    }
}

/// Replaces the stored password hash of `username` with the hash of
/// `password`. Returns `false`, leaving every record unchanged, when no
/// record is filed under that name or the hasher fails.
pub fn change_password(dir: &mut Directory, username: &str, password: &str) -> (r: bool)
    requires
        old(dir).wf(),
    ensures
        final(dir).wf(),
        !r ==> final(dir)@ == old(dir)@,
        spec_lookup_idx(old(dir)@, username@) < 0 ==> !r,
        r ==> ({
            let idx = spec_lookup_idx(old(dir)@, username@);
            &&& 0 <= idx < old(dir)@.len()
            &&& final(dir)@.len() == old(dir)@.len()
            &&& forall|k: int| 0 <= k < old(dir)@.len() && k != idx ==> final(dir)@[k] == old(
                dir,
            )@[k]
            &&& final(dir)@[idx].username == old(dir)@[idx].username
            &&& final(dir)@[idx].contact == old(dir)@[idx].contact
            &&& final(dir)@[idx].pwhash matches Some(h) && phc_verifies(h, password@)
        }),
{
    let i = match dir.find_index(username) {
        None => {
            return false;
        },
        Some(i) => i,
    };
    let h = match argon2_hash(password) {
        None => {
            return false;
        },
        Some(h) => h,
    };
    let ghost before = dir@;
    dir.records[i].pwhash = Some(h);
    proof {
        assert(dir@ =~= before.update(i as int, dir@[i as int]));
    }
    true
}

/// Replaces the stored contact information of `username`; an empty value
/// deletes it. Returns `false`, leaving every record unchanged, when no
/// record is filed under that name.
pub fn change_contact(dir: &mut Directory, username: &str, contact: &str) -> (r: bool)
    requires
        old(dir).wf(),
    ensures
        final(dir).wf(),
        r == (spec_lookup_idx(old(dir)@, username@) >= 0),
        !r ==> final(dir)@ == old(dir)@,
        r ==> ({
            let idx = spec_lookup_idx(old(dir)@, username@);
            &&& 0 <= idx < old(dir)@.len()
            &&& final(dir)@.len() == old(dir)@.len()
            &&& forall|k: int| 0 <= k < old(dir)@.len() && k != idx ==> final(dir)@[k] == old(
                dir,
            )@[k]
            &&& final(dir)@[idx].username == old(dir)@[idx].username
            &&& final(dir)@[idx].pwhash == old(dir)@[idx].pwhash
            &&& final(dir)@[idx].contact == contact@
        }),
{
    let i = match dir.find_index(username) {
        None => {
            return false;
        },
        Some(i) => i,
    };
    let ghost before = dir@;
    dir.records[i].contact = contact.to_owned();
    proof {
        assert(dir@ =~= before.update(i as int, dir@[i as int]));
    }
    true
}

} // verus!
