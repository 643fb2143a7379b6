//! The OneSync profile list: profile records, their persistent status, and the rules
//! for creating, renaming and removing them.
use vstd::prelude::*;

use crate::event::BackendError;
use crate::text::{chars_eq, chars_of, decimal, decimal_string, is_ascii_alnum, is_ascii_alnum_char, is_ws, is_ws_char, lower_char, lower_spec, push_str, starts_with, str_eq, string_of, trim, trim_by, trim_chars, CharClass};
use crate::utils::{expand_home, expand_home_spec, join_path, join_spec};

verus! {

// ---------------------------------------------------------------------------
// Records
// ---------------------------------------------------------------------------

/// Why a new profile was refused.
#[derive(Debug, Clone, PartialEq, Eq)]
pub enum AccountStoreError {
    DuplicateAccountName,
    DuplicateSyncDir,
}

impl AccountStoreError {
    /// The backend error that reports this refusal.
    pub fn backend_error(&self) -> (r: BackendError)
        ensures
            match self {
                AccountStoreError::DuplicateAccountName => r is DuplicateAccountName,
                AccountStoreError::DuplicateSyncDir => r is DuplicateSyncDir,
            },
    {
        match self {
            AccountStoreError::DuplicateAccountName => BackendError::DuplicateAccountName,
            AccountStoreError::DuplicateSyncDir => BackendError::DuplicateSyncDir,
        }
    }
}

/// The persistent state of a profile.
#[derive(Debug, Clone, PartialEq, Eq)]
pub enum AccountStatus {
    NeedsAuth,
    Authenticated,
    Error(String),
}

pub enum AccountStatusView {
    NeedsAuth,
    Authenticated,
    Error(Seq<char>),
}

impl View for AccountStatus {
    type V = AccountStatusView;

    open spec fn view(&self) -> AccountStatusView {
        match self {
            AccountStatus::NeedsAuth => AccountStatusView::NeedsAuth,
            AccountStatus::Authenticated => AccountStatusView::Authenticated,
            AccountStatus::Error(m) => AccountStatusView::Error(m@),
        }
    }
}

/// A OneDrive profile: its onedrive configuration directory and sync directory.
#[derive(Debug, Clone)]
pub struct Account {
    pub id: String,
    pub name: String,
    pub email: String,
    pub config_dir: String,
    pub sync_dir: String,
    pub status: AccountStatus,
}

pub struct AccountView {
    pub id: Seq<char>,
    pub name: Seq<char>,
    pub email: Seq<char>,
    pub config_dir: Seq<char>,
    pub sync_dir: Seq<char>,
    pub status: AccountStatusView,
}

impl View for Account {
    type V = AccountView;

    open spec fn view(&self) -> AccountView {
        AccountView {
            id: self.id@,
            name: self.name@,
            email: self.email@,
            config_dir: self.config_dir@,
            sync_dir: self.sync_dir@,
            status: self.status@,
        }
    }
}

pub open spec fn accounts_view(v: Seq<Account>) -> Seq<AccountView> {
    v.map_values(|a: Account| a@)
}

fn copy_status(s: &AccountStatus) -> (r: AccountStatus)
    ensures
        r@ == s@,
{
    match s {
        AccountStatus::NeedsAuth => AccountStatus::NeedsAuth,
        AccountStatus::Authenticated => AccountStatus::Authenticated,
        AccountStatus::Error(m) => AccountStatus::Error(m.clone()),
    }
}

impl Account {
    /// A field-by-field copy.
    pub fn copy(&self) -> (r: Account)
        ensures
            r@ == self@,
    {
        Account {
            id: self.id.clone(),
            name: self.name.clone(),
            email: self.email.clone(),
            config_dir: self.config_dir.clone(),
            sync_dir: self.sync_dir.clone(),
            status: copy_status(&self.status),
        }
    }
}

/// The profiles, in the order they were added.
#[derive(Debug)]
pub struct AccountStore {
    pub accounts: Vec<Account>,
}

impl View for AccountStore {
    type V = Seq<AccountView>;

    open spec fn view(&self) -> Seq<AccountView> {
        accounts_view(self.accounts@)
    }
}

impl Default for AccountStore {
    fn default() -> (r: Self)
        ensures
            r@ == Seq::<AccountView>::empty(),
    {
        let r = AccountStore { accounts: Vec::new() };
        assert(r@ =~= Seq::<AccountView>::empty());
        r
    }
}

// ---------------------------------------------------------------------------
// Paths as the filesystem compares them
// ---------------------------------------------------------------------------

/// The parts by which `Path` equality compares a Unix path: whether it is rooted,
/// whether it starts with `.`, and its other components (empty and `.` ones dropped).
pub struct PathComponents {
    pub rooted: bool,
    pub cur_dir: bool,
    pub normal: Seq<Seq<char>>,
}

pub open spec fn is_normal_component(p: Seq<char>) -> bool {
    p.len() > 0 && p != seq!['.']
}

/// The non-empty, non-`.` pieces between slashes.
pub open spec fn normal_components(s: Seq<char>) -> Seq<Seq<char>> {
    crate::adapter::onedrive::output::split_char(s, '/').filter(|p: Seq<char>| is_normal_component(p))
}

pub open spec fn path_components(s: Seq<char>) -> PathComponents {
    PathComponents {
        rooted: s.len() > 0 && s[0] == '/',
        cur_dir: s.len() > 0 && s[0] == '.' && (s.len() == 1 || s[1] == '/'),
        normal: normal_components(s),
    }
}

/// Two paths name the same location as `Path`'s `==` sees it.
pub open spec fn same_path(a: Seq<char>, b: Seq<char>) -> bool {
    path_components(a) == path_components(b)
}

fn normal_components_of(v: &Vec<char>) -> (r: Vec<Vec<char>>)
    ensures
        r@.map_values(|x: Vec<char>| x@) == normal_components(v@),
{
    let pieces = crate::adapter::onedrive::output::split_char_of(v, '/');
    let ghost all = crate::adapter::onedrive::output::split_char(v@, '/');
    let ghost pred = |p: Seq<char>| is_normal_component(p);
    let mut out: Vec<Vec<char>> = Vec::new();
    let mut i: usize = 0;
    while i < pieces.len()
        invariant
            i <= pieces@.len(),
            pieces@.len() == all.len(),
            all == crate::adapter::onedrive::output::split_char(v@, '/'),
            pred == (|p: Seq<char>| is_normal_component(p)),
            forall|k: int| 0 <= k < pieces@.len() ==> #[trigger] pieces@[k]@ == all[k],
            out@.map_values(|x: Vec<char>| x@) == all.take(i as int).filter(pred),
        decreases pieces.len() - i,
    {
        let p = &pieces[i];
        let dot = p.len() == 1 && p[0] == '.';
        proof {
            assert(all.take(i + 1).drop_last() =~= all.take(i as int));
            assert(all.take(i + 1).last() == p@);
            reveal_with_fuel(Seq::<Seq<char>>::filter, 1);
            if p@ == seq!['.'] {
                assert(p@[0] == '.');
            }
            if dot {
                assert(p@ =~= seq!['.']);
            }
        }
        let ghost before = out@;
        if p.len() > 0 && !dot {
            out.push(sub_chars_all(p));
            assert(out@.map_values(|x: Vec<char>| x@) =~= before.map_values(|x: Vec<char>| x@).push(p@));
        }
        i += 1;
    }
    assert(all.take(all.len() as int) == all);
    out
}

fn sub_chars_all(v: &Vec<char>) -> (r: Vec<char>)
    ensures
        r@ == v@,
{
    let r = crate::text::sub_chars(v, 0, v.len());
    assert(v@.subrange(0, v@.len() as int) == v@);
    r
}

fn char_lists_equal(a: &Vec<Vec<char>>, b: &Vec<Vec<char>>) -> (r: bool)
    ensures
        r == (a@.map_values(|x: Vec<char>| x@) == b@.map_values(|x: Vec<char>| x@)),
{
    if a.len() != b.len() {
        assert(a@.map_values(|x: Vec<char>| x@).len() != b@.map_values(|x: Vec<char>| x@).len());
        return false;
    }
    let mut i: usize = 0;
    while i < a.len()
        invariant
            a.len() == b.len(),
            i <= a.len(),
            forall|j: int| 0 <= j < i ==> a@[j]@ == b@[j]@,
        decreases a.len() - i,
    {
        if !chars_eq(&a[i], &b[i]) {
            assert(a@.map_values(|x: Vec<char>| x@)[i as int] != b@.map_values(
                |x: Vec<char>| x@,
            )[i as int]);
            return false;
        }
        i += 1;
    }
    assert(a@.map_values(|x: Vec<char>| x@) =~= b@.map_values(|x: Vec<char>| x@));
    true
}

/// Whether two paths name the same location as `Path` equality sees it.
pub fn same_path_exec(a: &str, b: &str) -> (r: bool)
    ensures
        r == same_path(a@, b@),
{
    let x = chars_of(a);
    let y = chars_of(b);
    let rooted_x = x.len() > 0 && x[0] == '/';
    let rooted_y = y.len() > 0 && y[0] == '/';
    let cur_x = x.len() > 0 && x[0] == '.' && (x.len() == 1 || x[1] == '/');
    let cur_y = y.len() > 0 && y[0] == '.' && (y.len() == 1 || y[1] == '/');
    if rooted_x != rooted_y || cur_x != cur_y {
        return false;
    }
    let nx = normal_components_of(&x);
    let ny = normal_components_of(&y);
    char_lists_equal(&nx, &ny)
}

// ---------------------------------------------------------------------------
// Creating profiles
// ---------------------------------------------------------------------------

/// A new profile may reuse neither a profile name nor (after `~` expansion) a sync
/// directory.
pub open spec fn validate_unique_spec(
    existing: Seq<AccountView>,
    home: Seq<char>,
    name: Seq<char>,
    sync_dir: Seq<char>,
) -> Option<AccountStoreError> {
    if exists|i: int| 0 <= i < existing.len() && #[trigger] existing[i].name == name {
        Some(AccountStoreError::DuplicateAccountName)
    } else if exists|i: int|
        0 <= i < existing.len() && same_path(
            expand_home_spec(home, #[trigger] existing[i].sync_dir),
            expand_home_spec(home, sync_dir),
        ) {
        Some(AccountStoreError::DuplicateSyncDir)
    } else {
        None
    }
}

/// A name already in use is refused, whichever profile has it: validation fails with
/// `DuplicateAccountName`.
pub proof fn law_duplicate_name_refused(
    existing: Seq<AccountView>,
    home: Seq<char>,
    name: Seq<char>,
    sync_dir: Seq<char>,
    i: int,
)
    requires
        0 <= i < existing.len(),
        existing[i].name == name,
    ensures
        validate_unique_spec(existing, home, name, sync_dir) == Some(AccountStoreError::DuplicateAccountName),
{
    assert(existing[i].name == name);
}

/// A profile that passes validation has a name no existing profile has.
pub proof fn law_validated_name_is_new(existing: Seq<AccountView>, home: Seq<char>, name: Seq<char>, sync_dir: Seq<char>)
    requires
        validate_unique_spec(existing, home, name, sync_dir) is None,
    ensures
        forall|j: int| 0 <= j < existing.len() ==> #[trigger] existing[j].name != name,
{
    assert forall|j: int| 0 <= j < existing.len() implies #[trigger] existing[j].name != name by {
        if existing[j].name == name {
            law_duplicate_name_refused(existing, home, name, sync_dir, j);
        }
    }
}

/// A sync directory already in use (after `~` expansion, as paths compare) is refused,
/// whichever profile has it: validation fails, with `DuplicateSyncDir` unless the name
/// is taken too.
pub proof fn law_duplicate_sync_dir_refused(
    existing: Seq<AccountView>,
    home: Seq<char>,
    name: Seq<char>,
    sync_dir: Seq<char>,
    i: int,
)
    requires
        0 <= i < existing.len(),
        same_path(expand_home_spec(home, existing[i].sync_dir), expand_home_spec(home, sync_dir)),
    ensures
        validate_unique_spec(existing, home, name, sync_dir) is Some,
        (forall|j: int| 0 <= j < existing.len() ==> #[trigger] existing[j].name != name)
            ==> validate_unique_spec(existing, home, name, sync_dir) == Some(
            AccountStoreError::DuplicateSyncDir,
        ),
{
    assert(same_path(expand_home_spec(home, existing[i].sync_dir), expand_home_spec(home, sync_dir)));
}

/// A profile that passes validation has a sync directory no existing profile has, and
/// in particular not the very same text.
pub proof fn law_validated_sync_dir_is_new(
    existing: Seq<AccountView>,
    home: Seq<char>,
    name: Seq<char>,
    sync_dir: Seq<char>,
)
    requires
        validate_unique_spec(existing, home, name, sync_dir) is None,
    ensures
        forall|j: int| 0 <= j < existing.len() ==> !same_path(
            expand_home_spec(home, #[trigger] existing[j].sync_dir),
            expand_home_spec(home, sync_dir),
        ),
        forall|j: int| 0 <= j < existing.len() ==> #[trigger] existing[j].sync_dir != sync_dir,
{
    assert forall|j: int| 0 <= j < existing.len() implies !same_path(
        expand_home_spec(home, #[trigger] existing[j].sync_dir),
        expand_home_spec(home, sync_dir),
    ) by {
        if same_path(expand_home_spec(home, existing[j].sync_dir), expand_home_spec(home, sync_dir)) {
            law_duplicate_sync_dir_refused(existing, home, name, sync_dir, j);
        }
    }
    assert forall|j: int| 0 <= j < existing.len() implies #[trigger] existing[j].sync_dir != sync_dir by {
        if existing[j].sync_dir == sync_dir {
            law_duplicate_sync_dir_refused(existing, home, name, sync_dir, j);
        }
    }
}

pub fn validate_unique(existing: &[Account], home: &str, name: &str, sync_dir: &str) -> (r: Result<(), AccountStoreError>)
    ensures
        match r {
            Ok(()) => validate_unique_spec(accounts_view(existing@), home@, name@, sync_dir@) == None::<AccountStoreError>,
            Err(e) => validate_unique_spec(accounts_view(existing@), home@, name@, sync_dir@) == Some(e),
        },
{
    let ghost ex = accounts_view(existing@);
    let mut i: usize = 0;
    while i < existing.len()
        invariant
            i <= existing@.len(),
            ex == accounts_view(existing@),
            forall|j: int| 0 <= j < i ==> #[trigger] ex[j].name != name@,
        decreases existing.len() - i,
    {
        if str_eq(existing[i].name.as_str(), name) {
            assert(ex[i as int].name == name@);
            return Err(AccountStoreError::DuplicateAccountName);
        }
        i += 1;
    }
    let target = expand_home(home, sync_dir);
    let mut k: usize = 0;
    while k < existing.len()
        invariant
            k <= existing@.len(),
            ex == accounts_view(existing@),
            target@ == expand_home_spec(home@, sync_dir@),
            forall|j: int| 0 <= j < existing@.len() ==> #[trigger] ex[j].name != name@,
            forall|j: int|
                0 <= j < k ==> !same_path(
                    expand_home_spec(home@, #[trigger] ex[j].sync_dir),
                    expand_home_spec(home@, sync_dir@),
                ),
        decreases existing.len() - k,
    {
        let other = expand_home(home, existing[k].sync_dir.as_str());
        if same_path_exec(other.as_str(), target.as_str()) {
            assert(ex[k as int].sync_dir == existing@[k as int].sync_dir@);
            return Err(AccountStoreError::DuplicateSyncDir);
        }
        k += 1;
    }
    Ok(())
}

/// The id-safe form of a character: ASCII letters and digits lower-cased; `-`,
/// `_` and whitespace become `-`; anything else is dropped.
pub open spec fn sanitize_char(c: char) -> Seq<char> {
    if is_ascii_alnum(c) {
        seq![lower_spec(c)]
    } else if c == '-' || c == '_' || is_ws(c) {
        seq!['-']
    } else {
        seq![]
    }
}

pub open spec fn sanitize_chars(s: Seq<char>) -> Seq<char>
    decreases s.len(),
{
    if s.len() == 0 {
        seq![]
    } else {
        sanitize_chars(s.drop_last()) + sanitize_char(s.last())
    }
}

/// A profile name made into an id part: sanitized, dashes at the ends trimmed, and
/// `onedrive` when nothing is left.
pub open spec fn sanitize_id_spec(value: Seq<char>) -> Seq<char> {
    let t = trim_by(sanitize_chars(value), CharClass::Exactly('-'));
    if t.len() == 0 {
        "onedrive"@
    } else {
        t
    }
}

pub fn sanitize_id(value: &str) -> (r: String)
    ensures
        r@ == sanitize_id_spec(value@),
{
    let v = chars_of(value);
    let mut id: Vec<char> = Vec::new();
    let mut i: usize = 0;
    while i < v.len()
        invariant
            i <= v.len(),
            id@ == sanitize_chars(v@.take(i as int)),
        decreases v.len() - i,
    {
        let c = v[i];
        assert(v@.take(i + 1).drop_last() =~= v@.take(i as int));
        let ghost before = id@;
        if is_ascii_alnum_char(c) {
            id.push(lower_char(c));
        } else if c == '-' || c == '_' || is_ws_char(c) {
            id.push('-');
        }
        assert(id@ =~= before + sanitize_char(c));
        i += 1;
    }
    assert(v@.take(v@.len() as int) == v@);
    let t = trim_chars(&id, CharClass::Exactly('-'));
    if t.len() == 0 {
        string_of(&chars_of("onedrive"))
    } else {
        string_of(&t)
    }
}

/// The profile name used when the given one is empty.
pub open spec fn default_profile_name() -> Seq<char> {
    "OneDrive"@
}

/// The record of a new profile: its id is the sanitized name and the creation time;
/// its configuration lives under the profiles root; it starts unauthenticated.
pub open spec fn new_account_spec(
    name: Seq<char>,
    email: Seq<char>,
    sync_dir: Seq<char>,
    profiles_root: Seq<char>,
    timestamp: nat,
) -> AccountView {
    let name = if name.len() == 0 {
        default_profile_name()
    } else {
        name
    };
    let id = sanitize_id_spec(name) + "-"@ + decimal(timestamp);
    AccountView {
        id,
        name,
        email,
        config_dir: join_spec(profiles_root, id),
        sync_dir,
        status: AccountStatusView::NeedsAuth,
    }
}

/// Checks that a new profile is unique and builds its record; creating its
/// directories and files is the caller's part.
pub fn new_account(
    existing: &[Account],
    home: &str,
    profiles_root: &str,
    timestamp: u64,
    name: &str,
    email: &str,
    sync_dir: &str,
) -> (r: Result<Account, AccountStoreError>)
    ensures
        match r {
            Ok(a) => validate_unique_spec(accounts_view(existing@), home@, name@, sync_dir@)
                == None::<AccountStoreError> && a@ == new_account_spec(
                name@,
                email@,
                sync_dir@,
                profiles_root@,
                timestamp as nat,
            ),
            Err(e) => validate_unique_spec(accounts_view(existing@), home@, name@, sync_dir@)
                == Some(e),
        },
{
    match validate_unique(existing, home, name, sync_dir) {
        Ok(()) => {},
        Err(e) => {
            return Err(e);
        },
    }
    let name_v = chars_of(name);
    let final_name = if name_v.len() == 0 {
        string_of(&chars_of("OneDrive"))
    } else {
        string_of(&name_v)
    };
    let mut id = sanitize_id(final_name.as_str());
    push_str(&mut id, "-");
    let stamp = decimal_string(timestamp);
    push_str(&mut id, stamp.as_str());
    let config_dir = join_path(profiles_root, id.as_str());
    Ok(
        Account {
            id,
            name: final_name,
            email: string_of(&chars_of(email)),
            config_dir,
            sync_dir: string_of(&chars_of(sync_dir)),
            status: AccountStatus::NeedsAuth,
        },
    )
}

/// The name proposed for the next profile: `OneDrive <n>`, where `n` is one more
/// than the number of stored profiles, or 1 when the store could not be read.
pub open spec fn suggestion_number(store_len: Option<usize>) -> nat {
    match store_len {
        Some(n) => (n + 1) as nat,
        None => 1,
    }
}

pub fn suggested_account_name(store_len: Option<usize>) -> (r: String)
    requires
        match store_len {
            Some(n) => n < u64::MAX,
            None => true,
        },
    ensures
        r@ == "OneDrive "@ + decimal(suggestion_number(store_len)),
{
    let n: u64 = match store_len {
        Some(n) => (n as u64) + 1,
        None => 1,
    };
    let mut s = string_of(&chars_of("OneDrive "));
    let d = decimal_string(n);
    push_str(&mut s, d.as_str());
    s
}

/// The sync directory proposed for the next profile: `~/OneDrive` for the first,
/// `~/OneDrive-<n>` after that.
pub fn suggested_sync_dir(store_len: Option<usize>) -> (r: String)
    requires
        match store_len {
            Some(n) => n < u64::MAX,
            None => true,
        },
    ensures
        r@ == (if suggestion_number(store_len) == 1 {
            "~/OneDrive"@
        } else {
            "~/OneDrive-"@ + decimal(suggestion_number(store_len))
        }),
{
    let n: u64 = match store_len {
        Some(n) => (n as u64) + 1,
        None => 1,
    };
    if n == 1 {
        string_of(&chars_of("~/OneDrive"))
    } else {
        let mut s = string_of(&chars_of("~/OneDrive-"));
        let d = decimal_string(n);
        push_str(&mut s, d.as_str());
        s
    }
}

/// Where the CLI writes the authentication URL during login.
pub fn auth_url_path(account: &Account) -> (r: String)
    ensures
        r@ == join_spec(account.config_dir@, "auth-url"@),
{
    join_path(account.config_dir.as_str(), "auth-url")
}

/// Where the UI writes the redirect URI the user pasted during login.
pub fn auth_response_path(account: &Account) -> (r: String)
    ensures
        r@ == join_spec(account.config_dir@, "auth-response"@),
{
    join_path(account.config_dir.as_str(), "auth-response")
}

/// Where the CLI keeps the refresh token; the profile is authenticated when it exists.
pub fn refresh_token_path(account: &Account) -> (r: String)
    ensures
        r@ == join_spec(account.config_dir@, "refresh_token"@),
{
    join_path(account.config_dir.as_str(), "refresh_token")
}

/// The user typed the profile's current name exactly, which removal requires.
pub fn remove_confirmation_matches(expected_name: &str, input: &str) -> (r: bool)
    ensures
        r == (input@ == expected_name@),
{
    str_eq(input, expected_name)
}

// ---------------------------------------------------------------------------
// Changing the list
// ---------------------------------------------------------------------------

/// A profile name that identity lookup may replace: blank, the default `OneDrive`
/// or `OneDrive <n>`, or the account's email.
pub open spec fn should_replace_name_spec(name: Seq<char>, email: Seq<char>) -> bool {
    let n = trim(name);
    ||| n.len() == 0
    ||| n == "OneDrive"@
    ||| starts_with(n, "OneDrive "@)
    ||| n == email
}

pub fn should_replace_profile_name(current_name: &str, current_email: &str) -> (r: bool)
    ensures
        r == should_replace_name_spec(current_name@, current_email@),
{
    let n = trim_chars(&chars_of(current_name), CharClass::Whitespace);
    n.len() == 0 || chars_eq(&n, &chars_of("OneDrive")) || crate::text::starts_with_chars(
        &n,
        &chars_of("OneDrive "),
    ) || chars_eq(&n, &chars_of(current_email))
}

/// A profile whose identity Graph should be asked for: it has no email yet, or a name
/// that identity lookup may replace.
pub fn needs_identity_lookup(account: &Account) -> (r: bool)
    ensures
        r == (trim(account.email@).len() == 0 || should_replace_name_spec(account.name@, account.email@)),
{
    let e = trim_chars(&chars_of(account.email.as_str()), CharClass::Whitespace);
    e.len() == 0 || should_replace_profile_name(account.name.as_str(), account.email.as_str())
}

/// The first profile with this id.
pub open spec fn find_index(accts: Seq<AccountView>, id: Seq<char>) -> Option<int> {
    if exists|i: int| 0 <= i < accts.len() && #[trigger] accts[i].id == id {
        Some(
            choose|i: int|
                0 <= i < accts.len() && #[trigger] accts[i].id == id && forall|j: int|
                    0 <= j < i ==> accts[j].id != id,
        )
    } else {
        None
    }
}

/// The profile record after identity lookup found a display name and an email.
pub open spec fn identity_update(a: AccountView, display_name: Option<Seq<char>>, email: Option<Seq<char>>) -> AccountView {
    let replace = should_replace_name_spec(a.name, a.email);
    AccountView {
        email: match email {
            Some(e) => e,
            None => a.email,
        },
        name: match display_name {
            Some(d) => if replace {
                d
            } else {
                a.name
            },
            None => a.name,
        },
        ..a
    }
}

pub open spec fn opt_str(o: Option<&str>) -> Option<Seq<char>> {
    match o {
        Some(s) => Some(s@),
        None => None,
    }
}

/// The records without any whose id is `id`.
pub open spec fn without_id(accts: Seq<AccountView>, id: Seq<char>) -> Seq<AccountView> {
    accts.filter(|a: AccountView| a.id != id)
}

pub proof fn lemma_first_index(accts: Seq<AccountView>, id: Seq<char>, i: int)
    requires
        0 <= i < accts.len(),
        accts[i].id == id,
        forall|j: int| 0 <= j < i ==> #[trigger] accts[j].id != id,
    ensures
        find_index(accts, id) == Some(i),
{
    let k = choose|k: int|
        0 <= k < accts.len() && #[trigger] accts[k].id == id && forall|j: int|
            0 <= j < k ==> accts[j].id != id;
    assert(0 <= k < accts.len() && accts[k].id == id && forall|j: int| 0 <= j < k ==> accts[j].id != id);
    if k < i {
        assert(accts[k].id != id);
    }
    if i < k {
        assert(accts[i].id != id);
    }
}

/// What `find_index` gives: the position of the first profile with the id, or none
/// when no profile has it.
pub proof fn lemma_find_index(accts: Seq<AccountView>, id: Seq<char>)
    ensures
        match find_index(accts, id) {
            Some(i) => 0 <= i < accts.len() && accts[i].id == id && forall|j: int|
                0 <= j < i ==> #[trigger] accts[j].id != id,
            None => forall|j: int| 0 <= j < accts.len() ==> #[trigger] accts[j].id != id,
        },
{
    if exists|i: int| 0 <= i < accts.len() && #[trigger] accts[i].id == id {
        let i = choose|i: int| 0 <= i < accts.len() && #[trigger] accts[i].id == id;
        let k = lemma_first_id(accts, id, i);
        lemma_first_index(accts, id, k);
    }
}

proof fn lemma_first_id(accts: Seq<AccountView>, id: Seq<char>, i: int) -> (k: int)
    requires
        0 <= i < accts.len(),
        accts[i].id == id,
    ensures
        0 <= k <= i,
        accts[k].id == id,
        forall|j: int| 0 <= j < k ==> #[trigger] accts[j].id != id,
    decreases i,
{
    if exists|j: int| 0 <= j < i && #[trigger] accts[j].id == id {
        let j = choose|j: int| 0 <= j < i && #[trigger] accts[j].id == id;
        lemma_first_id(accts, id, j)
    } else {
        i
    }
}

impl AccountStore {
    pub fn accounts(&self) -> (r: &[Account])
        ensures
            r@ == self.accounts@,
    {
        self.accounts.as_slice()
    }

    /// The profile records, to change in place.
    pub fn accounts_mut(&mut self) -> (r: &mut Vec<Account>)
        ensures
            *r == old(self).accounts,
            final(self).accounts == *final(r),
    {
        &mut self.accounts
    }

    /// Position of the first profile with this id.
    pub fn position(&self, account_id: &str) -> (r: Option<usize>)
        ensures
            match r {
                Some(i) => i < self.accounts@.len() && find_index(self@, account_id@) == Some(
                    i as int,
                ),
                None => find_index(self@, account_id@) == None::<int>,
            },
    {
        let ghost v = self@;
        let mut i: usize = 0;
        while i < self.accounts.len()
            invariant
                i <= self.accounts@.len(),
                v == self@,
                forall|j: int| 0 <= j < i ==> #[trigger] v[j].id != account_id@,
            decreases self.accounts.len() - i,
        {
            if str_eq(self.accounts[i].id.as_str(), account_id) {
                proof {
                    lemma_first_index(v, account_id@, i as int);
                }
                return Some(i);
            }
            i += 1;
        }
        None
    }

    /// Appends a new profile after checking it is unique; returns its record.
    pub fn add(
        &mut self,
        home: &str,
        profiles_root: &str,
        timestamp: u64,
        name: &str,
        email: &str,
        sync_dir: &str,
    ) -> (r: Result<Account, AccountStoreError>)
        ensures
            match r {
                Ok(a) => validate_unique_spec(old(self)@, home@, name@, sync_dir@)
                    == None::<AccountStoreError> && a@ == new_account_spec(
                    name@,
                    email@,
                    sync_dir@,
                    profiles_root@,
                    timestamp as nat,
                ) && final(self)@ == old(self)@.push(a@),
                Err(e) => validate_unique_spec(old(self)@, home@, name@, sync_dir@) == Some(e)
                    && final(self)@ == old(self)@,
            },
    {
        let created = new_account(
            self.accounts.as_slice(),
            home,
            profiles_root,
            timestamp,
            name,
            email,
            sync_dir,
        );
        match created {
            Ok(a) => {
                let copy = a.copy();
                self.accounts.push(copy);
                assert(self@ =~= old(self)@.push(a@));
                Ok(a)
            },
            Err(e) => Err(e),
        }
    }

    /// Sets the status of the profile with this id; `false` when there is none.
    pub fn update_status(&mut self, account_id: &str, status: AccountStatus) -> (r: bool)
        ensures
            match find_index(old(self)@, account_id@) {
                Some(i) => 0 <= i < old(self)@.len() && r && final(self)@ == old(self)@.update(
                    i,
                    AccountView { status: status@, ..old(self)@[i] },
                ),
                None => !r && final(self)@ == old(self)@,
            },
    {
        match self.position(account_id) {
            Some(i) => {
                let mut a = self.accounts[i].copy();
                a.status = status;
                self.accounts.set(i, a);
                assert(self@ =~= old(self)@.update(
                    i as int,
                    AccountView { status: status@, ..old(self)@[i as int] },
                ));
                true
            },
            None => false,
        }
    }

    /// Records what identity lookup found: the email always, the display name only
    /// over a default, blank or email name. Returns whether anything changed.
    pub fn update_identity(
        &mut self,
        account_id: &str,
        display_name: Option<&str>,
        email: Option<&str>,
    ) -> (r: bool)
        ensures
            match find_index(old(self)@, account_id@) {
                Some(i) => 0 <= i < old(self)@.len() && final(self)@ == old(self)@.update(
                    i,
                    identity_update(old(self)@[i], opt_str(display_name), opt_str(email)),
                ) && r == (identity_update(old(self)@[i], opt_str(display_name), opt_str(email))
                    != old(self)@[i]),
                None => !r && final(self)@ == old(self)@,
            },
    {
        let i = match self.position(account_id) {
            Some(i) => i,
            None => {
                return false;
            },
        };
        let mut a = self.accounts[i].copy();
        let replace = should_replace_profile_name(a.name.as_str(), a.email.as_str());
        let mut changed = false;
        match email {
            Some(e) => {
                if !str_eq(a.email.as_str(), e) {
                    a.email = string_of(&chars_of(e));
                    changed = true;
                }
            },
            None => {},
        }
        match display_name {
            Some(d) => {
                if replace && !str_eq(a.name.as_str(), d) {
                    a.name = string_of(&chars_of(d));
                    changed = true;
                }
            },
            None => {},
        }
        let ghost old_a = old(self)@[i as int];
        let ghost new_a = identity_update(old_a, opt_str(display_name), opt_str(email));
        assert(a@ == new_a);
        proof {
            if !changed {
                assert(new_a == old_a);
            } else {
                assert(new_a.email != old_a.email || new_a.name != old_a.name);
            }
        }
        self.accounts.set(i, a);
        assert(self@ =~= old(self)@.update(i as int, new_a));
        changed
    }

    /// Sets each profile's status from whether its refresh token is on disk.
    pub fn refresh_statuses(&mut self, token_present: &[bool])
        requires
            token_present@.len() == old(self)@.len(),
        ensures
            final(self)@.len() == old(self)@.len(),
            forall|i: int|
                0 <= i < old(self)@.len() ==> #[trigger] final(self)@[i] == (AccountView {
                    status: if token_present@[i] {
                        AccountStatusView::Authenticated
                    } else {
                        AccountStatusView::NeedsAuth
                    },
                    ..old(self)@[i]
                }),
    {
        let mut i: usize = 0;
        while i < self.accounts.len()
            invariant
                i <= self.accounts@.len(),
                self.accounts@.len() == old(self)@.len(),
                token_present@.len() == old(self)@.len(),
                forall|j: int|
                    0 <= j < i ==> #[trigger] self@[j] == (AccountView {
                        status: if token_present@[j] {
                            AccountStatusView::Authenticated
                        } else {
                            AccountStatusView::NeedsAuth
                        },
                        ..old(self)@[j]
                    }),
                forall|j: int| i <= j < self.accounts@.len() ==> #[trigger] self@[j] == old(self)@[j],
            decreases self.accounts.len() - i,
        {
            assert(self@[i as int] == old(self)@[i as int]);
            assert(self@[i as int] == self.accounts@[i as int]@);
            let mut a = self.accounts[i].copy();
            a.status = if token_present[i] {
                AccountStatus::Authenticated
            } else {
                AccountStatus::NeedsAuth
            };
            let ghost before = self@;
            let ghost av = a@;
            assert(av == (AccountView {
                status: if token_present@[i as int] {
                    AccountStatusView::Authenticated
                } else {
                    AccountStatusView::NeedsAuth
                },
                ..old(self)@[i as int]
            }));
            self.accounts.set(i, a);
            assert(self@ =~= before.update(i as int, av));
            i += 1;
        }
    }

    /// Drops every profile with this id; the profile's files stay on disk.
    pub fn remove(&mut self, account_id: &str)
        ensures
            final(self)@ == without_id(old(self)@, account_id@),
    {
        let ghost v = self@;
        let mut kept: Vec<Account> = Vec::new();
        let mut i: usize = 0;
        while i < self.accounts.len()
            invariant
                i <= self.accounts@.len(),
                v == self@,
                accounts_view(kept@) == without_id(v.take(i as int), account_id@),
            decreases self.accounts.len() - i,
        {
            proof {
                reveal_with_fuel(Seq::<AccountView>::filter, 1);
                assert(v.take(i + 1).drop_last() =~= v.take(i as int));
                assert(v.take(i + 1).last() == self.accounts@[i as int]@);
            }
            let ghost before = kept@;
            if !str_eq(self.accounts[i].id.as_str(), account_id) {
                kept.push(self.accounts[i].copy());
                assert(accounts_view(kept@) =~= accounts_view(before).push(self.accounts@[i as int]@));
            }
            i += 1;
        }
        assert(v.take(v.len() as int) == v);
        self.accounts = kept;
    }
}

} // verus!
