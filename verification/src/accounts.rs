//! Stored accounts, and the choice of the one to log in with.

use crate::text::same_text;
use vstd::prelude::*;

verus! {

/// An account and its password.
#[derive(Debug)]
pub struct User {
    pub account: String,
    pub password: String,
}

/// The mathematical content of a [`User`].
pub struct UserView {
    pub account: Seq<char>,
    pub password: Seq<char>,
}

impl View for User {
    type V = UserView;

    open spec fn view(&self) -> UserView {
        UserView { account: self.account@, password: self.password@ }
    }
}

impl User {
    /// The user with this account and password.
    pub fn new(account: String, password: String) -> (user: User)
        ensures
            user.account == account,
            user.password == password,
    {
        User { account, password }
    }

    /// A copy of the user.
    pub fn duplicate(&self) -> (copy: User)
        ensures
            copy@ == self@,
    {
        User { account: self.account.clone(), password: self.password.clone() }
    }
}

/// What the command line gives to log in with: an account and its password,
/// the label to store them under, and whether that label becomes the
/// default.
#[derive(Debug)]
pub struct LoginWithAccount {
    pub account: Option<String>,
    pub password: Option<String>,
    pub save: Option<String>,
    pub default: bool,
}

/// What the command line gives to log in with a stored account: its label.
#[derive(Debug)]
pub struct LoginWithLabel {
    pub load: Option<String>,
}

/// What the command line asks for.
pub enum Command {
    /// Log in.
    Login { login_with_account: LoginWithAccount, login_with_label: LoginWithLabel },
    /// Log out.
    Logout {},
    /// Ask what the account has used and which devices are logged in.
    Query { account: Option<String> },
    /// Obscure a text, or restore an obscured one.
    Encrypt { decrypt: bool, source: String },
}

/// Why no account could be chosen.
#[derive(Clone, Copy, Debug, PartialEq, Eq, Structural)]
pub enum Refusal {
    /// No account is stored under the label that was asked for.
    UnknownLabel,
    /// No label was given and none is set as the default.
    NoDefault,
}

/// The stored accounts, each under its label, and the label of the default
/// account; an empty label means that there is no default.
#[derive(Debug)]
pub struct Network {
    pub users: Vec<(String, User)>,
    pub default: String,
}

/// The stored entries as labels and contents.
pub open spec fn entries_view(entries: Seq<(String, User)>) -> Seq<(Seq<char>, UserView)> {
    entries.map_values(|entry: (String, User)| (entry.0@, entry.1@))
}

/// Whether no label stands twice among the entries.
pub open spec fn distinct(entries: Seq<(Seq<char>, UserView)>) -> bool {
    forall|i: int, j: int|
        0 <= i < j < entries.len() ==> (#[trigger] entries[i]).0 != (#[trigger] entries[j]).0
}

/// The entries as a map from label to account.
pub open spec fn as_map(entries: Seq<(Seq<char>, UserView)>) -> Map<Seq<char>, UserView>
    decreases entries.len(),
{
    if entries.len() == 0 {
        Map::empty()
    } else {
        as_map(entries.drop_last()).insert(entries.last().0, entries.last().1)
    }
}

/// Whether `label` stands among the entries.
pub open spec fn has_label(entries: Seq<(Seq<char>, UserView)>, label: Seq<char>) -> bool {
    exists|i: int| 0 <= i < entries.len() && (#[trigger] entries[i]).0 == label
}

/// The map holds exactly the labels of the entries.
pub proof fn lemma_as_map_labels(entries: Seq<(Seq<char>, UserView)>, label: Seq<char>)
    ensures
        as_map(entries).contains_key(label) <==> has_label(entries, label),
    decreases entries.len(),
{
    if entries.len() > 0 {
        let front = entries.drop_last();
        lemma_as_map_labels(front, label);
        if has_label(front, label) {
            let i = choose|i: int| 0 <= i < front.len() && (#[trigger] front[i]).0 == label;
            assert(entries[i].0 == label);
        }
        if has_label(entries, label) {
            let i = choose|i: int| 0 <= i < entries.len() && (#[trigger] entries[i]).0 == label;
            if i < front.len() {
                assert(front[i].0 == label);
            }
        }
        if label == entries.last().0 {
            assert(entries[entries.len() - 1].0 == label);
        }
    }
}

/// Under each label of distinct entries the map holds the account that
/// stands beside it.
pub proof fn lemma_as_map_account(entries: Seq<(Seq<char>, UserView)>, i: int)
    requires
        distinct(entries),
        0 <= i < entries.len(),
    ensures
        as_map(entries).contains_key(entries[i].0),
        as_map(entries)[entries[i].0] == entries[i].1,
    decreases entries.len(),
{
    let front = entries.drop_last();
    if i < front.len() {
        assert forall|a: int, b: int| 0 <= a < b < front.len() implies (#[trigger] front[a]).0 != (
        #[trigger] front[b]).0 by {
            assert(front[a] == entries[a] && front[b] == entries[b]);
        }
        assert(front[i] == entries[i]);
        lemma_as_map_account(front, i);
        assert(entries[i].0 != entries[entries.len() - 1].0);
    }
}

impl Network {
    /// The stored accounts by label.
    pub open spec fn accounts(&self) -> Map<Seq<char>, UserView> {
        as_map(entries_view(self.users@))
    }

    /// Whether no label is stored twice.
    pub open spec fn wf(&self) -> bool {
        distinct(entries_view(self.users@))
    }

    /// No stored accounts and no default.
    pub fn new() -> (data: Network)
        ensures
            data.wf(),
            data.accounts() == Map::<Seq<char>, UserView>::empty(),
            data.default@.len() == 0,
    {
        Network { users: Vec::new(), default: String::new() }
    }

    /// Where `label` is stored, if it is.
    fn position(&self, label: &str) -> (at: Option<usize>)
        ensures
            match at {
                Some(i) => i < self.users@.len() && self.users@[i as int].0@ == label@,
                None => forall|i: int| 0 <= i < self.users@.len() ==> self.users@[i].0@ != label@,
            },
    {
        let mut i: usize = 0;
        while i < self.users.len()
            invariant
                i <= self.users@.len(),
                forall|j: int| 0 <= j < i ==> self.users@[j].0@ != label@,
            decreases self.users@.len() - i,
        {
            if same_text(self.users[i].0.as_str(), label) {
                return Some(i);
            }
            i += 1;
        }
        None
    }

    /// The account stored under `label`.
    pub fn get(&self, label: &str) -> (user: Option<&User>)
        requires
            self.wf(),
        ensures
            match user {
                Some(found) => self.accounts().contains_key(label@) && self.accounts()[label@]
                    == found@,
                None => !self.accounts().contains_key(label@),
            },
    {
        let ghost entries = entries_view(self.users@);
        match self.position(label) {
            Some(i) => {
                proof {
                    assert(entries[i as int].0 == label@);
                    lemma_as_map_account(entries, i as int);
                }
                Some(&self.users[i].1)
            },
            None => {
                proof {
                    lemma_as_map_labels(entries, label@);
                    assert forall|i: int| 0 <= i < entries.len() implies (#[trigger] entries[i]).0
                        != label@ by {
                        assert(entries[i].0 == self.users@[i].0@);
                    }
                }
                None
            },
        }
    }

    /// Stores `user` under `label`, in place of what was stored there.
    pub fn insert(&mut self, label: String, user: User)
        requires
            old(self).wf(),
        ensures
            final(self).wf(),
            final(self).accounts() == old(self).accounts().insert(label@, user@),
            final(self).default == old(self).default,
    {
        let ghost before = entries_view(self.users@);
        let ghost entry = (label@, user@);
        match self.position(label.as_str()) {
            Some(i) => {
                self.users.set(i, (label, user));
                proof {
                    let after = entries_view(self.users@);
                    assert(after =~= before.update(i as int, entry));
                    assert(distinct(after)) by {
                        assert forall|a: int, b: int| 0 <= a < b < after.len() implies (
                        #[trigger] after[a]).0 != (#[trigger] after[b]).0 by {
                            assert(after[a].0 == before[a].0 && after[b].0 == before[b].0);
                        }
                    }
                    assert forall|key: Seq<char>|
                        as_map(after).contains_key(key) == #[trigger] as_map(before).insert(
                            entry.0,
                            entry.1,
                        ).contains_key(key) by {
                        lemma_as_map_labels(after, key);
                        lemma_as_map_labels(before, key);
                        if has_label(after, key) {
                            let a = choose|a: int|
                                0 <= a < after.len() && (#[trigger] after[a]).0 == key;
                            assert(before[a].0 == key);
                        }
                        if has_label(before, key) {
                            let a = choose|a: int|
                                0 <= a < before.len() && (#[trigger] before[a]).0 == key;
                            assert(after[a].0 == key);
                        }
                        if key == entry.0 {
                            assert(after[i as int].0 == key);
                        }
                    }
                    assert forall|key: Seq<char>| #[trigger]
                        as_map(after).contains_key(key) implies as_map(after)[key] == as_map(
                        before,
                    ).insert(entry.0, entry.1)[key] by {
                        lemma_as_map_labels(after, key);
                        let a = choose|a: int|
                            0 <= a < after.len() && (#[trigger] after[a]).0 == key;
                        lemma_as_map_account(after, a);
                        if a != i {
                            assert(before[a] == after[a]);
                            lemma_as_map_account(before, a);
                            assert(before[a].0 != before[i as int].0);
                        }
                    }
                    assert(as_map(after) =~= as_map(before).insert(entry.0, entry.1));
                }
            },
            None => {
                self.users.push((label, user));
                proof {
                    let after = entries_view(self.users@);
                    assert(after =~= before.push(entry));
                    assert(after.drop_last() == before);
                    assert(distinct(after)) by {
                        assert forall|a: int, b: int| 0 <= a < b < after.len() implies (
                        #[trigger] after[a]).0 != (#[trigger] after[b]).0 by {
                            assert(after[a] == before[a]);
                            if b < before.len() {
                                assert(after[b] == before[b]);
                            }
                        }
                    }
                }
            },
        }
    }
}

/// Whether the command line gave both an account and its password.
pub open spec fn gives_account(with_account: LoginWithAccount) -> bool {
    with_account.account is Some && with_account.password is Some
}

/// The account to log in with: the one given on the command line; else the
/// one stored under the label given; else the one stored under the default
/// label. A label under which nothing is stored, given or default, is
/// refused as unknown.
pub open spec fn chosen(
    accounts: Map<Seq<char>, UserView>,
    default: Seq<char>,
    with_account: LoginWithAccount,
    with_label: LoginWithLabel,
) -> Result<UserView, Refusal> {
    if gives_account(with_account) {
        Ok(UserView { account: with_account.account->0@, password: with_account.password->0@ })
    } else if with_label.load is Some {
        if accounts.contains_key(with_label.load->0@) {
            Ok(accounts[with_label.load->0@])
        } else {
            Err(Refusal::UnknownLabel)
        }
    } else if default.len() == 0 {
        Err(Refusal::NoDefault)
    } else if accounts.contains_key(default) {
        Ok(accounts[default])
    } else {
        Err(Refusal::UnknownLabel)
    }
}

/// Whether the command line asks to store the account that it gave.
pub open spec fn stores(with_account: LoginWithAccount) -> bool {
    gives_account(with_account) && with_account.save is Some
}

/// Chooses the account to log in with, and stores it where the command line
/// asks for that: under the label given, which also becomes the default
/// where that is asked too. Nothing else changes what is stored.
pub fn login(
    data: &mut Network,
    login_with_account: LoginWithAccount,
    login_with_label: LoginWithLabel,
) -> (user: Result<User, Refusal>)
    requires
        old(data).wf(),
    ensures
        match user {
            Ok(found) => chosen(
                old(data).accounts(),
                old(data).default@,
                login_with_account,
                login_with_label,
            ) == Ok::<UserView, Refusal>(found@),
            Err(refusal) => chosen(
                old(data).accounts(),
                old(data).default@,
                login_with_account,
                login_with_label,
            ) == Err::<UserView, Refusal>(refusal),
        },
        final(data).wf(),
        final(data).accounts() == if stores(login_with_account) {
            old(data).accounts().insert(
                login_with_account.save->0@,
                UserView {
                    account: login_with_account.account->0@,
                    password: login_with_account.password->0@,
                },
            )
        } else {
            old(data).accounts()
        },
        final(data).default@ == if stores(login_with_account) && login_with_account.default {
            login_with_account.save->0@
        } else {
            old(data).default@
        },
{
    match (login_with_account.account, login_with_account.password) {
        (Some(account), Some(password)) => {
            let user = User::new(account, password);
            if let Some(label) = login_with_account.save {
                data.insert(label.clone(), user.duplicate());
                if login_with_account.default {
                    data.default = label;
                }
            }
            Ok(user)
        },
        _ => {
            if let Some(label) = login_with_label.load {
                match data.get(label.as_str()) {
                    Some(found) => Ok(found.duplicate()),
                    None => Err(Refusal::UnknownLabel),
                }
            } else if data.default.as_str().is_empty() {
                Err(Refusal::NoDefault)
            } else {
                match data.get(data.default.as_str()) {
                    Some(found) => Ok(found.duplicate()),
                    None => Err(Refusal::UnknownLabel),
                }
            }
        },
    }
}

} // verus!
