//! Credential pairs, and the table that says which pairs to try against a
//! device of a given advertised name.

use crate::text::{
    compare, lemma_precedes_asymmetric, lemma_precedes_transitive, precedes, same_text, Standing,
};
use vstd::prelude::*;

verus! {

/// One username and password to try against a device.
#[derive(Debug, PartialEq, Eq)]
pub struct Credentials {
    pub username: String,
    pub password: String,
}

/// What a `Credentials` value holds, as text.
pub struct CredentialsView {
    pub username: Seq<char>,
    pub password: Seq<char>,
}

impl View for Credentials {
    type V = CredentialsView;

    open spec fn view(&self) -> CredentialsView {
        CredentialsView { username: self.username@, password: self.password@ }
    }
}

impl DeepView for Credentials {
    type V = CredentialsView;

    open spec fn deep_view(&self) -> CredentialsView {
        self@
    }
}

impl Clone for Credentials {
    fn clone(&self) -> (r: Self)
        ensures
            r == *self,
    {
        Credentials { username: self.username.clone(), password: self.password.clone() }
    }
}

impl Credentials {
    /// The pair of `username` and `password`.
    pub fn new(username: &str, password: &str) -> (r: Self)
        ensures
            r@ == (CredentialsView { username: username@, password: password@ }),
    {
        Credentials { username: username.to_owned(), password: password.to_owned() }
    }
}

/// The pair that is tried against a device whose name the table does not
/// hold.
pub open spec fn fallback() -> CredentialsView {
    CredentialsView { username: "admin"@, password: "hx1235698"@ }
}

/// The pair that is tried against a device whose name the table does not
/// hold.
pub fn default_credentials() -> (r: Credentials)
    ensures
        r@ == fallback(),
{
    Credentials::new("admin", "hx1235698")
}

/// Both halves of a credential pair are given, or neither is.
pub open spec fn paired(username: Option<&str>, password: Option<&str>) -> bool {
    username is Some <==> password is Some
}

/// What `username` and `password` make together: a pair, or no
/// authentication at all.
pub open spec fn credentials_of(username: Option<&str>, password: Option<&str>) -> Option<
    CredentialsView,
> {
    match (username, password) {
        (Some(u), Some(p)) => Some(CredentialsView { username: u@, password: p@ }),
        _ => None,
    }
}

/// Joins the two halves of a credential pair. To give one half without the
/// other is a mistake of the caller.
pub fn pair_credentials(username: Option<&str>, password: Option<&str>) -> (r: Option<Credentials>)
    requires
        paired(username, password),
    ensures
        r.deep_view() == credentials_of(username, password),
{
    match (username, password) {
        (Some(u), Some(p)) => Some(Credentials::new(u, p)),
        _ => None,
    }
}

/// A copy of `list`.
pub fn copy_logins(list: &Vec<Credentials>) -> (r: Vec<Credentials>)
    ensures
        r.deep_view() == list.deep_view(),
{
    let mut r: Vec<Credentials> = Vec::new();
    let mut i: usize = 0;
    while i < list.len()
        invariant
            i <= list.len(),
            r.len() == i,
            forall|k: int| 0 <= k < i ==> r[k]@ == list[k]@,
        decreases list.len() - i,
    {
        r.push(list[i].clone());
        i += 1;
    }
    r
}

/// The usernames of `list` go up strictly in the dictionary order.
pub open spec fn ascending(list: Seq<CredentialsView>) -> bool {
    forall|i: int, j: int|
        0 <= i < j < list.len() ==> precedes(#[trigger] list[i].username, #[trigger] list[j].username)
}

/// `list` holds a pair for `username`.
pub open spec fn lists_username(list: Seq<CredentialsView>, username: Seq<char>) -> bool {
    exists|i: int| 0 <= i < list.len() && #[trigger] list[i].username == username
}

/// A place of `list` that holds `username`.
pub open spec fn place_of(list: Seq<CredentialsView>, username: Seq<char>) -> int {
    choose|i: int| 0 <= i < list.len() && #[trigger] list[i].username == username
}

/// The passwords of `list`, by username.
pub open spec fn logins_of(list: Seq<CredentialsView>) -> Map<Seq<char>, Seq<char>> {
    Map::new(
        |username: Seq<char>| lists_username(list, username),
        |username: Seq<char>| list[place_of(list, username)].password,
    )
}

/// In an ascending list each username stands at one place only.
pub proof fn lemma_place_of(list: Seq<CredentialsView>, i: int)
    requires
        ascending(list),
        0 <= i < list.len(),
    ensures
        lists_username(list, list[i].username),
        place_of(list, list[i].username) == i,
        logins_of(list).contains_key(list[i].username),
        logins_of(list)[list[i].username] == list[i].password,
{
    let j = place_of(list, list[i].username);
    if j < i {
        lemma_precedes_asymmetric(list[j].username, list[i].username);
    }
    if i < j {
        lemma_precedes_asymmetric(list[i].username, list[j].username);
    }
}

/// An ascending list is known by the passwords it holds: two such lists
/// with the same passwords by username are the same list.
pub proof fn lemma_listing_unique(a: Seq<CredentialsView>, b: Seq<CredentialsView>)
    requires
        ascending(a),
        ascending(b),
        logins_of(a) == logins_of(b),
    ensures
        a == b,
    decreases a.len(),
{
    if a.len() == 0 {
        if b.len() > 0 {
            lemma_place_of(b, 0);
        }
    } else if b.len() == 0 {
        lemma_place_of(a, 0);
    } else {
        lemma_place_of(a, 0);
        lemma_place_of(b, 0);
        let i = place_of(b, a[0].username);
        let j = place_of(a, b[0].username);
        if i > 0 && j > 0 {
            lemma_precedes_transitive(b[0].username, b[i].username, a[j].username);
            lemma_precedes_asymmetric(b[0].username, a[j].username);
        }
        if i > 0 && j == 0 {
            lemma_precedes_asymmetric(b[0].username, b[i].username);
        }
        if i == 0 && j > 0 {
            lemma_precedes_asymmetric(a[0].username, a[j].username);
        }
        let x = a.drop_first();
        let y = b.drop_first();
        lemma_drop_first(a);
        lemma_drop_first(b);
        lemma_listing_unique(x, y);
        assert(a =~= seq![a[0]] + x);
    }
}

/// Without its first pair an ascending list is still ascending, and holds
/// the passwords of all usernames but the first.
proof fn lemma_drop_first(list: Seq<CredentialsView>)
    requires
        ascending(list),
        list.len() > 0,
    ensures
        ascending(list.drop_first()),
        logins_of(list.drop_first()) == logins_of(list).remove(list[0].username),
{
    let rest = list.drop_first();
    assert forall|u: Seq<char>|
        logins_of(rest).contains_key(u) == logins_of(list).remove(list[0].username).contains_key(
            u,
        ) by {
        if lists_username(rest, u) {
            let k = place_of(rest, u);
            lemma_precedes_asymmetric(list[0].username, list[k + 1].username);
        }
        if lists_username(list, u) && u != list[0].username {
            let k = place_of(list, u);
            assert(rest[k - 1].username == u);
        }
    }
    assert forall|u: Seq<char>| logins_of(rest).contains_key(u) implies logins_of(rest)[u]
        == logins_of(list)[u] by {
        let k = place_of(rest, u);
        lemma_place_of(rest, k);
        lemma_place_of(list, k + 1);
    }
}

/// Puts `login` into an ascending list, where its username belongs. A pair
/// with the same username gives way to it.
fn place_login(list: &mut Vec<Credentials>, login: Credentials)
    requires
        ascending(old(list).deep_view()),
    ensures
        ascending(final(list).deep_view()),
        logins_of(final(list).deep_view()) == logins_of(old(list).deep_view()).insert(
            login@.username,
            login@.password,
        ),
{
    let ghost before = list.deep_view();
    let mut at: usize = 0;
    let mut standing = Standing::After;
    if list.len() > 0 {
        standing = compare(list[0].username.as_str(), login.username.as_str());
    }
    while at < list.len() && standing == Standing::Before
        invariant
            list.deep_view() == before,
            at <= list.len(),
            at < list.len() ==> (standing == Standing::Before) == precedes(
                before[at as int].username,
                login@.username,
            ),
            at < list.len() ==> (standing == Standing::Same) == (before[at as int].username
                == login@.username),
            at < list.len() ==> (standing == Standing::After) == precedes(
                login@.username,
                before[at as int].username,
            ),
            forall|k: int| 0 <= k < at ==> precedes(#[trigger] before[k].username, login@.username),
        decreases list.len() - at,
    {
        at += 1;
        if at < list.len() {
            standing = compare(list[at].username.as_str(), login.username.as_str());
        }
    }
    let found = at < list.len() && standing == Standing::Same;
    let ghost entry = login@;
    if found {
        list[at] = login;
    } else {
        list.insert(at, login);
    }
    let ghost after = list.deep_view();
    proof {
        let n = at as int;
        if found {
            assert(after =~= before.update(n, entry));
        } else {
            assert(after =~= before.insert(n, entry));
        }
        assert forall|i: int, j: int| 0 <= i < j < after.len() implies precedes(
            #[trigger] after[i].username,
            #[trigger] after[j].username,
        ) by {
            if !found && i == n && j > n + 1 {
                lemma_precedes_transitive(entry.username, before[n].username, before[j - 1].username);
            }
        }
        assert forall|u: Seq<char>|
            logins_of(after).contains_key(u) == logins_of(before).insert(
                entry.username,
                entry.password,
            ).contains_key(u) by {
            if lists_username(before, u) && u != entry.username {
                let k = place_of(before, u);
                if found || k < n {
                    assert(after[k].username == u);
                } else {
                    assert(after[k + 1].username == u);
                }
            }
            if u == entry.username {
                assert(after[n].username == u);
            }
        }
        assert forall|u: Seq<char>| logins_of(after).contains_key(u) implies logins_of(after)[u]
            == logins_of(before).insert(entry.username, entry.password)[u] by {
            let k = place_of(after, u);
            lemma_place_of(after, k);
            if u == entry.username {
                lemma_place_of(after, n);
            } else if found || k < n {
                lemma_place_of(before, k);
            } else {
                lemma_place_of(before, k - 1);
            }
        }
    }
}

/// The pairs configured for one advertised name.
#[derive(Debug)]
struct DeviceLogins {
    name: String,
    logins: Vec<Credentials>,
}

/// No name stands twice in `devices`, and under each name the usernames
/// ascend.
spec fn well_formed(devices: Seq<DeviceLogins>) -> bool {
    &&& forall|i: int, j: int|
        0 <= i < j < devices.len() ==> #[trigger] devices[i].name@ != #[trigger] devices[j].name@
    &&& forall|i: int| 0 <= i < devices.len() ==> ascending(#[trigger] devices[i].logins.deep_view())
}

spec fn names(devices: Seq<DeviceLogins>, name: Seq<char>) -> bool {
    exists|i: int| 0 <= i < devices.len() && #[trigger] devices[i].name@ == name
}

spec fn place_of_name(devices: Seq<DeviceLogins>, name: Seq<char>) -> int {
    choose|i: int| 0 <= i < devices.len() && #[trigger] devices[i].name@ == name
}

/// By advertised name, the passwords by username.
spec fn model(devices: Seq<DeviceLogins>) -> Map<Seq<char>, Map<Seq<char>, Seq<char>>> {
    Map::new(
        |name: Seq<char>| names(devices, name),
        |name: Seq<char>| logins_of(devices[place_of_name(devices, name)].logins.deep_view()),
    )
}

proof fn lemma_place_of_name(devices: Seq<DeviceLogins>, i: int)
    requires
        well_formed(devices),
        0 <= i < devices.len(),
    ensures
        names(devices, devices[i].name@),
        place_of_name(devices, devices[i].name@) == i,
        model(devices).contains_key(devices[i].name@),
        model(devices)[devices[i].name@] == logins_of(devices[i].logins.deep_view()),
{
}

/// Where the pairs of `device` are kept, if `devices` holds that name.
fn find(devices: &Vec<DeviceLogins>, device: &str) -> (r: Option<usize>)
    ensures
        match r {
            Some(i) => i < devices.len() && devices[i as int].name@ == device@,
            None => !names(devices@, device@),
        },
{
    let mut i: usize = 0;
    while i < devices.len()
        invariant
            i <= devices.len(),
            forall|k: int| 0 <= k < i ==> #[trigger] devices[k].name@ != device@,
        decreases devices.len() - i,
    {
        if same_text(devices[i].name.as_str(), device) {
            return Some(i);
        }
        i += 1;
    }
    None
}

/// Makes `device` a name of `devices`, with no pair yet, unless it is one
/// already, and says where its pairs are kept.
fn enter(devices: &mut Vec<DeviceLogins>, device: &str) -> (at: usize)
    requires
        well_formed(old(devices)@),
    ensures
        well_formed(final(devices)@),
        at < final(devices).len(),
        final(devices)[at as int].name@ == device@,
        model(final(devices)@) == if model(old(devices)@).contains_key(device@) {
            model(old(devices)@)
        } else {
            model(old(devices)@).insert(device@, Map::empty())
        },
{
    match find(devices, device) {
        Some(at) => at,
        None => {
            let ghost before = devices@;
            let at = devices.len();
            devices.push(DeviceLogins { name: device.to_owned(), logins: Vec::new() });
            proof {
                let after = devices@;
                let n = at as int;
                assert forall|name: Seq<char>|
                    model(after).contains_key(name) == model(before).insert(
                        device@,
                        Map::empty(),
                    ).contains_key(name) by {
                    if names(before, name) {
                        assert(after[place_of_name(before, name)].name@ == name);
                    }
                    if name == device@ {
                        assert(after[n].name@ == name);
                    }
                }
                assert forall|name: Seq<char>| model(after).contains_key(name) implies model(
                    after,
                )[name] == model(before).insert(device@, Map::empty())[name] by {
                    let k = place_of_name(after, name);
                    lemma_place_of_name(after, k);
                    if k < n {
                        lemma_place_of_name(before, k);
                    }
                }
            }
            at
        },
    }
}

/// Which credential pairs to try against a device, by the name that the
/// device advertises. Under each name the pairs are kept by username, one
/// password for each, and are listed in the dictionary order of their
/// usernames: the order in which they are tried.
#[derive(Debug)]
pub struct CredentialTable {
    devices: Vec<DeviceLogins>,
}

impl View for CredentialTable {
    type V = Map<Seq<char>, Map<Seq<char>, Seq<char>>>;

    /// By advertised name, the passwords by username.
    closed spec fn view(&self) -> Map<Seq<char>, Map<Seq<char>, Seq<char>>> {
        model(self.devices@)
    }
}

/// The passwords by username that `table` holds for `name`: none where it
/// does not hold the name.
pub open spec fn logins_under(
    table: Map<Seq<char>, Map<Seq<char>, Seq<char>>>,
    name: Seq<char>,
) -> Map<Seq<char>, Seq<char>> {
    if table.contains_key(name) {
        table[name]
    } else {
        Map::empty()
    }
}

impl CredentialTable {
    #[verifier::type_invariant]
    spec fn sound(&self) -> bool {
        well_formed(self.devices@)
    }

    /// A table that holds no name.
    pub fn new() -> (r: Self)
        ensures
            r@ == Map::<Seq<char>, Map<Seq<char>, Seq<char>>>::empty(),
    {
        CredentialTable { devices: Vec::new() }
    }

    /// Makes `device` a name of the table, with no pair yet, unless it is
    /// one already.
    pub fn add_device(&mut self, device: &str)
        ensures
            final(self)@ == old(self)@.insert(device@, logins_under(old(self)@, device@)),
    {
        proof {
            use_type_invariant(&*self);
        }
        let mut devices: Vec<DeviceLogins> = Vec::new();
        core::mem::swap(&mut self.devices, &mut devices);
        let _ = enter(&mut devices, device);
        self.devices = devices;
    }

    /// Sets the password of `username` for devices that advertise the name
    /// `device`.
    pub fn insert(&mut self, device: &str, username: &str, password: &str)
        ensures
            final(self)@ == old(self)@.insert(
                device@,
                logins_under(old(self)@, device@).insert(username@, password@),
            ),
    {
        proof {
            use_type_invariant(&*self);
        }
        let mut devices: Vec<DeviceLogins> = Vec::new();
        core::mem::swap(&mut self.devices, &mut devices);
        let at = enter(&mut devices, device);
        let ghost entered = devices@;
        place_login(&mut devices[at].logins, Credentials::new(username, password));
        proof {
            let after = devices@;
            lemma_place_of_name(entered, at as int);
            assert forall|i: int| 0 <= i < after.len() implies after[i].name@ == entered[i].name@ by {}
            assert forall|name: Seq<char>|
                model(after).contains_key(name) == model(entered).contains_key(name) by {
                if names(entered, name) {
                    assert(after[place_of_name(entered, name)].name@ == name);
                }
                if names(after, name) {
                    assert(entered[place_of_name(after, name)].name@ == name);
                }
            }
            assert forall|name: Seq<char>| model(after).contains_key(name) implies model(after)[name]
                == model(entered).insert(
                device@,
                model(entered)[device@].insert(username@, password@),
            )[name] by {
                let k = place_of_name(after, name);
                lemma_place_of_name(after, k);
                lemma_place_of_name(entered, k);
            }
        }
        self.devices = devices;
    }

    /// The pairs to try against a device that advertises the name
    /// `device`, in the order in which to try them, if the table holds that
    /// name.
    pub fn get(&self, device: &str) -> (r: Option<&Vec<Credentials>>)
        ensures
            r is Some == self@.contains_key(device@),
            r matches Some(list) ==> ascending(list.deep_view()) && logins_of(list.deep_view())
                == self@[device@],
    {
        proof {
            use_type_invariant(self);
        }
        match find(&self.devices, device) {
            Some(at) => {
                proof {
                    lemma_place_of_name(self.devices@, at as int);
                }
                Some(&self.devices[at].logins)
            },
            None => None,
        }
    }

    /// The pairs to try against a device that advertises `name`: those that
    /// the table holds under that name, or else the one default pair. A
    /// device that advertises no name is in no table.
    pub fn candidates_for(&self, name: Option<&str>) -> (r: Selection)
        ensures
            r.matched == (name matches Some(n) && self@.contains_key(n@)),
            r.matched ==> ascending(r.candidates.deep_view()) && logins_of(
                r.candidates.deep_view(),
            ) == self@[name->0@],
            !r.matched ==> r.candidates.deep_view() == seq![fallback()],
    {
        let found = match name {
            Some(n) => self.get(n),
            None => None,
        };
        match found {
            Some(list) => Selection { candidates: copy_logins(list), matched: true },
            None => {
                let mut candidates: Vec<Credentials> = Vec::new();
                candidates.push(default_credentials());
                Selection { candidates, matched: false }
            },
        }
    }
}

/// What `candidates_for` found for a device.
#[derive(Debug, PartialEq, Eq)]
pub struct Selection {
    /// The pairs to try, in order.
    pub candidates: Vec<Credentials>,
    /// Whether the table holds the device's name. If not, `candidates` is
    /// the one default pair.
    pub matched: bool,
}

} // verus!
