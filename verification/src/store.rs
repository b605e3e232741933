//! Site metadata (`Data`), the password entry (`Password`), and the
//! in-memory store (`PassManager`) with merge-on-insert and metadata lookup.

use vstd::prelude::*;

use crate::passkey::key_view;
use crate::passkey::spec_check;
use crate::passkey::Passkey;
use crate::passkey::PasskeyView;

verus! {

/// Password data: the site a password is used at, with an optional email and
/// an optional username.
#[derive(Debug)]
pub struct Data {
    pub location: String,
    pub email: Option<String>,
    pub username: Option<String>,
}

/// The mathematical value of a `Data`: its texts as character sequences.
pub struct DataView {
    pub location: Seq<char>,
    pub email: Option<Seq<char>>,
    pub username: Option<Seq<char>>,
}

/// The optional text as an optional character sequence.
pub open spec fn opt_text(o: Option<String>) -> Option<Seq<char>> {
    match o {
        Some(t) => Some(t@),
        None => None,
    }
}

impl View for Data {
    type V = DataView;

    open spec fn view(&self) -> DataView {
        DataView {
            location: self.location@,
            email: opt_text(self.email),
            username: opt_text(self.username),
        }
    }
}

impl Clone for Data {
    fn clone(&self) -> (r: Self)
        ensures
            r@ == self@,
    {
        Data {
            location: self.location.clone(),
            email: match &self.email {
                Some(e) => Some(e.clone()),
                None => None,
            },
            username: match &self.username {
                Some(u) => Some(u.clone()),
                None => None,
            },
        }
    }
}

impl Data {
    /// Creates a `Data` with just a location.
    pub fn location(location: String) -> (r: Self)
        ensures
            r@ == (DataView { location: location@, email: None, username: None }),
    {
        Data { location, email: None, username: None }
    }

    /// Creates a `Data` with a location and email.
    pub fn email(location: String, email: String) -> (r: Self)
        ensures
            r@ == (DataView { location: location@, email: Some(email@), username: None }),
    {
        Data { location, email: Some(email), username: None }
    }

    /// Creates a `Data` with a location and username.
    pub fn username(location: String, username: String) -> (r: Self)
        ensures
            r@ == (DataView { location: location@, email: None, username: Some(username@) }),
    {
        Data { location, email: None, username: Some(username) }
    }
}

/// A passkey with its associated information, one record per use site.
#[derive(Debug)]
pub struct Password {
    pub pass: Passkey,
    pub data: Vec<Data>,
}

/// The mathematical value of a `Password`: the passkey's value and the
/// records' values, in order.
pub struct PasswordView {
    pub pass: PasskeyView,
    pub data: Seq<DataView>,
}

impl View for Password {
    type V = PasswordView;

    open spec fn view(&self) -> PasswordView {
        PasswordView { pass: self.pass@, data: self.data@.map_values(|d: Data| d@) }
    }
}

impl Clone for Password {
    fn clone(&self) -> (r: Self)
        ensures
            r@ == self@,
    {
        let mut data: Vec<Data> = Vec::new();
        let mut i: usize = 0;
        while i < self.data.len()
            invariant
                i <= self.data@.len(),
                data@.len() == i,
                forall|j: int| 0 <= j < i ==> data@[j]@ == self.data@[j]@,
            decreases self.data@.len() - i,
        {
            let d = self.data[i].clone();
            data.push(d);
            i = i + 1;
        }
        let r = Password { pass: self.pass.clone(), data };
        proof {
            assert(r@.data =~= self@.data);
        }
        r
    }
}

/// The texts of a sequence of strings, as character sequences.
pub open spec fn texts_of(v: Seq<String>) -> Seq<Seq<char>> {
    v.map_values(|s: String| s@)
}

/// The locations of all records, in order.
pub open spec fn locations_of(data: Seq<DataView>) -> Seq<Seq<char>> {
    data.map_values(|d: DataView| d.location)
}

/// The emails of the records that carry one, in order.
pub open spec fn emails_of(data: Seq<DataView>) -> Seq<Seq<char>> {
    data.filter(|d: DataView| d.email is Some).map_values(|d: DataView| d.email->0)
}

/// The usernames of the records that carry one, in order.
pub open spec fn usernames_of(data: Seq<DataView>) -> Seq<Seq<char>> {
    data.filter(|d: DataView| d.username is Some).map_values(|d: DataView| d.username->0)
}

/// The records whose location is not the given one, in order.
pub open spec fn drop_location(data: Seq<DataView>, location: Seq<char>) -> Seq<DataView> {
    data.filter(|d: DataView| d.location != location)
}

/// The records whose email is not the given one, in order.
pub open spec fn drop_email(data: Seq<DataView>, email: Seq<char>) -> Seq<DataView> {
    data.filter(|d: DataView| d.email != Some(email))
}

/// The records whose username is not the given one, in order.
pub open spec fn drop_username(data: Seq<DataView>, username: Seq<char>) -> Seq<DataView> {
    data.filter(|d: DataView| d.username != Some(username))
}

proof fn lemma_texts_push(v: Seq<String>, s: String)
    ensures
        texts_of(v.push(s)) == texts_of(v).push(s@),
{
    assert(texts_of(v.push(s)) =~= texts_of(v).push(s@));
}

proof fn lemma_locations_push(s: Seq<DataView>, d: DataView)
    ensures
        locations_of(s.push(d)) == locations_of(s).push(d.location),
{
    assert(locations_of(s.push(d)) =~= locations_of(s).push(d.location));
}

proof fn lemma_emails_push(s: Seq<DataView>, d: DataView)
    ensures
        emails_of(s.push(d)) == if d.email is Some {
            emails_of(s).push(d.email->0)
        } else {
            emails_of(s)
        },
{
    broadcast use Seq::lemma_filter_push;

    if d.email is Some {
        assert(emails_of(s.push(d)) =~= emails_of(s).push(d.email->0));
    } else {
        assert(emails_of(s.push(d)) =~= emails_of(s));
    }
}

proof fn lemma_usernames_push(s: Seq<DataView>, d: DataView)
    ensures
        usernames_of(s.push(d)) == if d.username is Some {
            usernames_of(s).push(d.username->0)
        } else {
            usernames_of(s)
        },
{
    broadcast use Seq::lemma_filter_push;

    if d.username is Some {
        assert(usernames_of(s.push(d)) =~= usernames_of(s).push(d.username->0));
    } else {
        assert(usernames_of(s.push(d)) =~= usernames_of(s));
    }
}

proof fn lemma_drop_location_push(s: Seq<DataView>, d: DataView, location: Seq<char>)
    ensures
        drop_location(s.push(d), location) == if d.location != location {
            drop_location(s, location).push(d)
        } else {
            drop_location(s, location)
        },
{
    broadcast use Seq::lemma_filter_push;

    if d.location != location {
        assert(drop_location(s.push(d), location) =~= drop_location(s, location).push(d));
    } else {
        assert(drop_location(s.push(d), location) =~= drop_location(s, location));
    }
}

proof fn lemma_drop_email_push(s: Seq<DataView>, d: DataView, email: Seq<char>)
    ensures
        drop_email(s.push(d), email) == if d.email != Some(email) {
            drop_email(s, email).push(d)
        } else {
            drop_email(s, email)
        },
{
    broadcast use Seq::lemma_filter_push;

    if d.email != Some(email) {
        assert(drop_email(s.push(d), email) =~= drop_email(s, email).push(d));
    } else {
        assert(drop_email(s.push(d), email) =~= drop_email(s, email));
    }
}

proof fn lemma_drop_username_push(s: Seq<DataView>, d: DataView, username: Seq<char>)
    ensures
        drop_username(s.push(d), username) == if d.username != Some(username) {
            drop_username(s, username).push(d)
        } else {
            drop_username(s, username)
        },
{
    broadcast use Seq::lemma_filter_push;

    if d.username != Some(username) {
        assert(drop_username(s.push(d), username) =~= drop_username(s, username).push(d));
    } else {
        assert(drop_username(s.push(d), username) =~= drop_username(s, username));
    }
}

impl Password {
    /// Creates a new password with no associated records.
    pub fn new(pass: Passkey) -> (r: Self)
        ensures
            r@.pass == pass@,
            r@.data == Seq::<DataView>::empty(),
    {
        let r = Password { pass, data: Vec::new() };
        proof {
            assert(r@.data =~= Seq::<DataView>::empty());
        }
        r
    }

    /// Checks against a passkey, as `Passkey::check` does.
    pub fn check(&self, other: &Passkey, key: Option<&String>) -> (r: bool)
        ensures
            r == spec_check(self@.pass, other@, key_view(key)),
    {
        self.pass.check(other, key)
    }

    /// Returns all associated emails, in record order.
    pub fn email(&self) -> (r: Vec<String>)
        ensures
            texts_of(r@) == emails_of(self@.data),
    {
        let mut r: Vec<String> = Vec::new();
        let mut i: usize = 0;
        while i < self.data.len()
            invariant
                i <= self.data@.len(),
                texts_of(r@) == emails_of(self@.data.take(i as int)),
            decreases self.data@.len() - i,
        {
            let ghost prefix = self@.data.take(i as int);
            let ghost seen = r@;
            match &self.data[i].email {
                Some(e) => {
                    let e = e.clone();
                    r.push(e);
                },
                None => {},
            }
            i = i + 1;
            proof {
                assert(self@.data.take(i as int) =~= prefix.push(self@.data[i - 1]));
                lemma_emails_push(prefix, self@.data[i - 1]);
                if self@.data[i - 1].email is Some {
                    lemma_texts_push(seen, r@[r@.len() - 1]);
                    assert(r@ =~= seen.push(r@[r@.len() - 1]));
                }
            }
        }
        proof {
            assert(self@.data.take(self.data@.len() as int) =~= self@.data);
        }
        r
    }

    /// Returns all associated usernames, in record order.
    pub fn username(&self) -> (r: Vec<String>)
        ensures
            texts_of(r@) == usernames_of(self@.data),
    {
        let mut r: Vec<String> = Vec::new();
        let mut i: usize = 0;
        while i < self.data.len()
            invariant
                i <= self.data@.len(),
                texts_of(r@) == usernames_of(self@.data.take(i as int)),
            decreases self.data@.len() - i,
        {
            let ghost prefix = self@.data.take(i as int);
            let ghost seen = r@;
            match &self.data[i].username {
                Some(u) => {
                    let u = u.clone();
                    r.push(u);
                },
                None => {},
            }
            i = i + 1;
            proof {
                assert(self@.data.take(i as int) =~= prefix.push(self@.data[i - 1]));
                lemma_usernames_push(prefix, self@.data[i - 1]);
                if self@.data[i - 1].username is Some {
                    lemma_texts_push(seen, r@[r@.len() - 1]);
                    assert(r@ =~= seen.push(r@[r@.len() - 1]));
                }
            }
        }
        proof {
            assert(self@.data.take(self.data@.len() as int) =~= self@.data);
        }
        r
    }

    /// Returns all associated locations, in record order.
    pub fn location(&self) -> (r: Vec<String>)
        ensures
            texts_of(r@) == locations_of(self@.data),
    {
        let mut r: Vec<String> = Vec::new();
        let mut i: usize = 0;
        while i < self.data.len()
            invariant
                i <= self.data@.len(),
                texts_of(r@) == locations_of(self@.data.take(i as int)),
            decreases self.data@.len() - i,
        {
            let ghost prefix = self@.data.take(i as int);
            let ghost seen = r@;
            let loc = self.data[i].location.clone();
            r.push(loc);
            i = i + 1;
            proof {
                assert(self@.data.take(i as int) =~= prefix.push(self@.data[i - 1]));
                lemma_locations_push(prefix, self@.data[i - 1]);
                lemma_texts_push(seen, r@[r@.len() - 1]);
                assert(r@ =~= seen.push(r@[r@.len() - 1]));
            }
        }
        proof {
            assert(self@.data.take(self.data@.len() as int) =~= self@.data);
        }
        r
    }

    /// Adds a record for a location with an email.
    pub fn add_email(&mut self, location: String, email: String)
        ensures
            final(self)@.pass == old(self)@.pass,
            final(self)@.data == old(self)@.data.push(
                DataView { location: location@, email: Some(email@), username: None },
            ),
    {
        self.add(Data::email(location, email));
    }

    /// Adds a record for a location with a username.
    pub fn add_username(&mut self, location: String, username: String)
        ensures
            final(self)@.pass == old(self)@.pass,
            final(self)@.data == old(self)@.data.push(
                DataView { location: location@, email: None, username: Some(username@) },
            ),
    {
        self.add(Data::username(location, username));
    }

    /// Adds a record for a location without a username or email.
    pub fn add_location(&mut self, location: String)
        ensures
            final(self)@.pass == old(self)@.pass,
            final(self)@.data == old(self)@.data.push(
                DataView { location: location@, email: None, username: None },
            ),
    {
        self.add(Data::location(location));
    }

    /// Adds a record.
    pub fn add(&mut self, data: Data)
        ensures
            final(self)@.pass == old(self)@.pass,
            final(self)@.data == old(self)@.data.push(data@),
    {
        self.data.push(data);
        proof {
            assert(self@.data =~= old(self)@.data.push(self.data@.last()@));
        }
    }

    /// Removes all records with a given location.
    pub fn remove_location(&mut self, location: String)
        ensures
            final(self)@.pass == old(self)@.pass,
            final(self)@.data == drop_location(old(self)@.data, location@),
    {
        let mut kept: Vec<Data> = Vec::new();
        let mut i: usize = 0;
        while i < self.data.len()
            invariant
                i <= self.data@.len(),
                self@ == old(self)@,
                kept@.map_values(|d: Data| d@) == drop_location(
                    self@.data.take(i as int),
                    location@,
                ),
            decreases self.data@.len() - i,
        {
            let ghost prefix = self@.data.take(i as int);
            let ghost seen = kept@.map_values(|d: Data| d@);
            if !(self.data[i].location == location) {
                let d = self.data[i].clone();
                kept.push(d);
            }
            i = i + 1;
            proof {
                assert(self@.data.take(i as int) =~= prefix.push(self@.data[i - 1]));
                lemma_drop_location_push(prefix, self@.data[i - 1], location@);
                if self@.data[i - 1].location != location@ {
                    assert(kept@.map_values(|d: Data| d@) =~= seen.push(self@.data[i - 1]));
                }
            }
        }
        proof {
            assert(self@.data.take(self.data@.len() as int) =~= self@.data);
        }
        self.data = kept;
    }

    /// Removes all records with a given email.
    pub fn remove_email(&mut self, email: String)
        ensures
            final(self)@.pass == old(self)@.pass,
            final(self)@.data == drop_email(old(self)@.data, email@),
    {
        let mut kept: Vec<Data> = Vec::new();
        let mut i: usize = 0;
        while i < self.data.len()
            invariant
                i <= self.data@.len(),
                self@ == old(self)@,
                kept@.map_values(|d: Data| d@) == drop_email(self@.data.take(i as int), email@),
            decreases self.data@.len() - i,
        {
            let ghost prefix = self@.data.take(i as int);
            let ghost seen = kept@.map_values(|d: Data| d@);
            let matches_email = match &self.data[i].email {
                Some(e) => *e == email,
                None => false,
            };
            if !matches_email {
                let d = self.data[i].clone();
                kept.push(d);
            }
            i = i + 1;
            proof {
                assert(self@.data.take(i as int) =~= prefix.push(self@.data[i - 1]));
                lemma_drop_email_push(prefix, self@.data[i - 1], email@);
                if self@.data[i - 1].email != Some(email@) {
                    assert(kept@.map_values(|d: Data| d@) =~= seen.push(self@.data[i - 1]));
                }
            }
        }
        proof {
            assert(self@.data.take(self.data@.len() as int) =~= self@.data);
        }
        self.data = kept;
    }

    /// Removes all records with a given username.
    pub fn remove_username(&mut self, username: String)
        ensures
            final(self)@.pass == old(self)@.pass,
            final(self)@.data == drop_username(old(self)@.data, username@),
    {
        let mut kept: Vec<Data> = Vec::new();
        let mut i: usize = 0;
        while i < self.data.len()
            invariant
                i <= self.data@.len(),
                self@ == old(self)@,
                kept@.map_values(|d: Data| d@) == drop_username(
                    self@.data.take(i as int),
                    username@,
                ),
            decreases self.data@.len() - i,
        {
            let ghost prefix = self@.data.take(i as int);
            let ghost seen = kept@.map_values(|d: Data| d@);
            let matches_username = match &self.data[i].username {
                Some(u) => *u == username,
                None => false,
            };
            if !matches_username {
                let d = self.data[i].clone();
                kept.push(d);
            }
            i = i + 1;
            proof {
                assert(self@.data.take(i as int) =~= prefix.push(self@.data[i - 1]));
                lemma_drop_username_push(prefix, self@.data[i - 1], username@);
                if self@.data[i - 1].username != Some(username@) {
                    assert(kept@.map_values(|d: Data| d@) =~= seen.push(self@.data[i - 1]));
                }
            }
        }
        proof {
            assert(self@.data.take(self.data@.len() as int) =~= self@.data);
        }
        self.data = kept;
    }
}

/// The error returned when a stored password file cannot be loaded.
#[derive(Debug)]
pub enum LoadPasswordsError {
    InvalidSyntax,
    FileError(std::io::Error),
}

/// Relies on `std::io::Error` being an ordinary (if opaque) error value; the
/// library only carries it, inside `LoadPasswordsError`.
#[verifier::external_type_specification]
#[verifier::external_body]
pub struct ExIoError(std::io::Error);

/// The values of a sequence of passwords, in order.
pub open spec fn views_of(v: Seq<Password>) -> Seq<PasswordView> {
    v.map_values(|p: Password| p@)
}

/// A password manager: an ordered collection of password entries.
#[derive(Debug)]
pub struct PassManager {
    passwords: Vec<Password>,
}

impl View for PassManager {
    type V = Seq<PasswordView>;

    closed spec fn view(&self) -> Seq<PasswordView> {
        views_of(self.passwords@)
    }
}

/// True when the entry answers the query: some record has the query's
/// location, and — independently — when the query carries an email, some
/// record has that email, and when it carries a username, some record has
/// that username. The three conditions need not be met by one record.
pub open spec fn entry_matches(p: PasswordView, q: DataView) -> bool {
    &&& exists|j: int| 0 <= j < p.data.len() && (#[trigger] p.data[j]).location == q.location
    &&& (q.email matches Some(e) ==> exists|j: int|
        0 <= j < p.data.len() && (#[trigger] p.data[j]).email == Some(e))
    &&& (q.username matches Some(u) ==> exists|j: int|
        0 <= j < p.data.len() && (#[trigger] p.data[j]).username == Some(u))
}

fn has_location(p: &Password, location: &String) -> (r: bool)
    ensures
        r == exists|j: int|
            0 <= j < p@.data.len() && (#[trigger] p@.data[j]).location == location@,
{
    let mut j: usize = 0;
    while j < p.data.len()
        invariant
            j <= p.data@.len(),
            forall|t: int| 0 <= t < j ==> (#[trigger] p@.data[t]).location != location@,
        decreases p.data@.len() - j,
    {
        if p.data[j].location == *location {
            proof {
                assert(p@.data[j as int].location == location@);
            }
            return true;
        }
        j = j + 1;
    }
    false
}

fn has_email(p: &Password, email: &String) -> (r: bool)
    ensures
        r == exists|j: int| 0 <= j < p@.data.len() && (#[trigger] p@.data[j]).email == Some(
            email@,
        ),
{
    let mut j: usize = 0;
    while j < p.data.len()
        invariant
            j <= p.data@.len(),
            forall|t: int| 0 <= t < j ==> (#[trigger] p@.data[t]).email != Some(email@),
        decreases p.data@.len() - j,
    {
        let found = match &p.data[j].email {
            Some(e) => *e == *email,
            None => false,
        };
        if found {
            proof {
                assert(p@.data[j as int].email == Some(email@));
            }
            return true;
        }
        j = j + 1;
    }
    false
}

fn has_username(p: &Password, username: &String) -> (r: bool)
    ensures
        r == exists|j: int| 0 <= j < p@.data.len() && (#[trigger] p@.data[j]).username == Some(
            username@,
        ),
{
    let mut j: usize = 0;
    while j < p.data.len()
        invariant
            j <= p.data@.len(),
            forall|t: int| 0 <= t < j ==> (#[trigger] p@.data[t]).username != Some(username@),
        decreases p.data@.len() - j,
    {
        let found = match &p.data[j].username {
            Some(u) => *u == *username,
            None => false,
        };
        if found {
            proof {
                assert(p@.data[j as int].username == Some(username@));
            }
            return true;
        }
        j = j + 1;
    }
    false
}

impl Default for PassManager {
    fn default() -> (r: Self)
        ensures
            r@ == Seq::<PasswordView>::empty(),
    {
        let r = PassManager { passwords: Vec::new() };
        proof {
            assert(r@ =~= Seq::<PasswordView>::empty());
        }
        r
    }
}

impl PassManager {
    /// Creates a new, empty manager.
    pub fn new() -> (r: Self)
        ensures
            r@ == Seq::<PasswordView>::empty(),
    {
        Self::default()
    }

    /// Returns a copy of all entries, in insertion order.
    pub fn passwords(&self) -> (r: Vec<Password>)
        ensures
            views_of(r@) == self@,
    {
        let mut r: Vec<Password> = Vec::new();
        let mut i: usize = 0;
        while i < self.passwords.len()
            invariant
                i <= self.passwords@.len(),
                r@.len() == i,
                forall|j: int| 0 <= j < i ==> (#[trigger] r@[j])@ == self@[j],
            decreases self.passwords@.len() - i,
        {
            let p = self.passwords[i].clone();
            r.push(p);
            i = i + 1;
        }
        proof {
            assert(views_of(r@) =~= self@);
        }
        r
    }

    /// Adds a password.
    ///
    /// Scans the entries in insertion order for one whose passkey checks
    /// against the new entry's passkey with no passphrase; the first such
    /// entry absorbs the new entry's records. If none checks, the new entry
    /// is appended as-is.
    pub fn add_password(&mut self, password: Password)
        ensures
            (exists|i: int|
                0 <= i < old(self)@.len() && spec_check(
                    old(self)@[i].pass,
                    password@.pass,
                    None,
                )) ==> exists|i: int|
                {
                    &&& 0 <= i < old(self)@.len()
                    &&& spec_check(old(self)@[i].pass, password@.pass, None)
                    &&& forall|j: int|
                        0 <= j < i ==> !spec_check(old(self)@[j].pass, password@.pass, None)
                    &&& final(self)@ == old(self)@.update(
                        i,
                        PasswordView {
                            pass: old(self)@[i].pass,
                            data: old(self)@[i].data + password@.data,
                        },
                    )
                },
            (forall|i: int|
                0 <= i < old(self)@.len() ==> !spec_check(
                    old(self)@[i].pass,
                    password@.pass,
                    None,
                )) ==> final(self)@ == old(self)@.push(password@),
    {
        let ghost orig = password@;
        let mut incoming = password;
        let mut k: usize = 0;
        while k < self.passwords.len()
            invariant
                *self == *old(self),
                k <= self.passwords@.len(),
                incoming@ == orig,
                orig == password@,
                forall|j: int| 0 <= j < k ==> !spec_check(self@[j].pass, orig.pass, None),
            decreases self.passwords@.len() - k,
        {
            let matched = self.passwords[k].check(&incoming.pass, None);
            if matched {
                let mut entry = self.passwords.remove(k);
                entry.data.append(&mut incoming.data);
                self.passwords.insert(k, entry);
                proof {
                    let pv = old(self)@;
                    let merged = self.passwords@[k as int];
                    assert(self.passwords@ =~= old(self).passwords@.update(k as int, merged));
                    assert(merged@.data =~= pv[k as int].data + orig.data);
                    assert(self@ =~= pv.update(
                        k as int,
                        PasswordView {
                            pass: pv[k as int].pass,
                            data: pv[k as int].data + orig.data,
                        },
                    ));
                    assert(spec_check(pv[k as int].pass, orig.pass, None));
                    assert({
                        let i = k as int;
                        &&& 0 <= i < pv.len()
                        &&& spec_check(pv[i].pass, orig.pass, None)
                        &&& forall|j: int| 0 <= j < i ==> !spec_check(pv[j].pass, orig.pass, None)
                        &&& self@ == pv.update(
                            i,
                            PasswordView { pass: pv[i].pass, data: pv[i].data + orig.data },
                        )
                    });
                    assert(exists|i: int|
                        {
                            &&& 0 <= i < old(self)@.len()
                            &&& spec_check(old(self)@[i].pass, orig.pass, None)
                            &&& forall|j: int|
                                0 <= j < i ==> !spec_check(old(self)@[j].pass, orig.pass, None)
                            &&& self@ == old(self)@.update(
                                i,
                                PasswordView {
                                    pass: old(self)@[i].pass,
                                    data: old(self)@[i].data + orig.data,
                                },
                            )
                        });
                }
                return;
            }
            k = k + 1;
        }
        self.passwords.push(incoming);
        proof {
            assert(self@ =~= old(self)@.push(orig));
        }
    }

    /// Retrieves a password by location.
    ///
    /// If multiple passwords share the location, returns the first.
    pub fn get_location(&self, location: String) -> (r: Option<Password>)
        ensures
            ({
                let q = DataView { location: location@, email: None, username: None };
                &&& (r is Some <==> exists|i: int|
                    0 <= i < self@.len() && entry_matches(#[trigger] self@[i], q))
                &&& (r matches Some(p) ==> exists|i: int|
                    {
                        &&& 0 <= i < self@.len()
                        &&& entry_matches(#[trigger] self@[i], q)
                        &&& forall|j: int| 0 <= j < i ==> !entry_matches(self@[j], q)
                        &&& p@ == self@[i]
                    })
            }),
    {
        self.get_data(Data::location(location))
    }

    /// Retrieves a password by location and email.
    ///
    /// If multiple passwords share both, returns the first.
    pub fn get_email(&self, location: String, email: String) -> (r: Option<Password>)
        ensures
            ({
                let q = DataView { location: location@, email: Some(email@), username: None };
                &&& (r is Some <==> exists|i: int|
                    0 <= i < self@.len() && entry_matches(#[trigger] self@[i], q))
                &&& (r matches Some(p) ==> exists|i: int|
                    {
                        &&& 0 <= i < self@.len()
                        &&& entry_matches(#[trigger] self@[i], q)
                        &&& forall|j: int| 0 <= j < i ==> !entry_matches(self@[j], q)
                        &&& p@ == self@[i]
                    })
            }),
    {
        self.get_data(Data::email(location, email))
    }

    /// Retrieves a password by location and username.
    ///
    /// If multiple passwords share both, returns the first.
    pub fn get_username(&self, location: String, username: String) -> (r: Option<Password>)
        ensures
            ({
                let q = DataView { location: location@, email: None, username: Some(username@) };
                &&& (r is Some <==> exists|i: int|
                    0 <= i < self@.len() && entry_matches(#[trigger] self@[i], q))
                &&& (r matches Some(p) ==> exists|i: int|
                    {
                        &&& 0 <= i < self@.len()
                        &&& entry_matches(#[trigger] self@[i], q)
                        &&& forall|j: int| 0 <= j < i ==> !entry_matches(self@[j], q)
                        &&& p@ == self@[i]
                    })
            }),
    {
        self.get_data(Data::username(location, username))
    }

    /// Retrieves a password by data, ignoring empty fields in `data`: the
    /// location must appear in some record, and a given email or username
    /// must appear in some record, not necessarily the same one.
    pub fn get_data(&self, data: Data) -> (r: Option<Password>)
        ensures
            r is Some <==> exists|i: int|
                0 <= i < self@.len() && entry_matches(#[trigger] self@[i], data@),
            r matches Some(p) ==> exists|i: int|
                {
                    &&& 0 <= i < self@.len()
                    &&& entry_matches(#[trigger] self@[i], data@)
                    &&& forall|j: int| 0 <= j < i ==> !entry_matches(self@[j], data@)
                    &&& p@ == self@[i]
                },
    {
        let mut i: usize = 0;
        while i < self.passwords.len()
            invariant
                i <= self.passwords@.len(),
                forall|j: int| 0 <= j < i ==> !entry_matches(#[trigger] self@[j], data@),
            decreases self.passwords@.len() - i,
        {
            let p = &self.passwords[i];
            let loc_ok = has_location(p, &data.location);
            let email_ok = match &data.email {
                Some(e) => has_email(p, e),
                None => true,
            };
            let username_ok = match &data.username {
                Some(u) => has_username(p, u),
                None => true,
            };
            if loc_ok && email_ok && username_ok {
                proof {
                    assert(p@ == self@[i as int]);
                    assert(entry_matches(self@[i as int], data@));
                }
                return Some(p.clone());
            }
            i = i + 1;
        }
        None
    }
}

} // verus!
