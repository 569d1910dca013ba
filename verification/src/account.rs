//! Accounts as the launch composer consumes them. Authentication itself is
//! an external collaborator; the core only reads the stored values and the
//! selection rule.

use vstd::prelude::*;

use crate::strutil::str_eq;

verus! {

/// A signed-in account, as the authentication collaborator produces it.
#[derive(Debug, Clone)]
pub struct Account {
    pub uuid: String,
    pub username: String,
    pub refresh_token: String,
    pub token: String,
}

impl Account {
    /// An equal copy, usable in verified code.
    pub fn dup(&self) -> (r: Account)
        ensures
            r == *self,
    {
        Account {
            uuid: self.uuid.clone(),
            username: self.username.clone(),
            refresh_token: self.refresh_token.clone(),
            token: self.token.clone(),
        }
    }
}

/// The stored account list and the UUID of the selected account.
#[derive(Debug, Clone)]
pub struct AccountConfig {
    pub accounts: Vec<Account>,
    pub default: Option<String>,
    pub path: String,
}

/// The first account with the given UUID, in list order.
pub open spec fn spec_account_by_uuid(accounts: Seq<Account>, uuid: Seq<char>) -> Option<Account>
    decreases accounts.len(),
{
    if accounts.len() == 0 {
        Option::None
    } else if accounts[0].uuid@ == uuid {
        Option::Some(accounts[0])
    } else {
        spec_account_by_uuid(accounts.drop_first(), uuid)
    }
}

/// What `selected` answers: the account named by the default UUID, or the
/// only account if exactly one exists and no default is set.
pub open spec fn spec_selected(accounts: Seq<Account>, default: Option<String>) -> Option<Account> {
    match default {
        Option::Some(uuid) => spec_account_by_uuid(accounts, uuid@),
        Option::None => {
            if accounts.len() == 1 {
                Option::Some(accounts[0])
            } else {
                Option::None
            }
        },
    }
}

fn account_by_uuid_from<'a>(accounts: &'a Vec<Account>, uuid: &str, i: usize) -> (r: Option<
    &'a Account,
>)
    requires
        i <= accounts@.len(),
    ensures
        (match r {
            Option::Some(a) => spec_account_by_uuid(accounts@.skip(i as int), uuid@)
                == Option::Some(*a),
            Option::None => spec_account_by_uuid(accounts@.skip(i as int), uuid@) is None,
        }),
    decreases accounts@.len() - i,
{
    if i == accounts.len() {
        assert(accounts@.skip(i as int) =~= Seq::<Account>::empty());
        Option::None
    } else {
        assert(accounts@.skip(i as int)[0] == accounts@[i as int]);
        assert(accounts@.skip(i as int).drop_first() =~= accounts@.skip(i as int + 1));
        if str_eq(accounts[i].uuid.as_str(), uuid) {
            Option::Some(&accounts[i])
        } else {
            account_by_uuid_from(accounts, uuid, i + 1)
        }
    }
}

impl AccountConfig {
    /// The account named by the `default` field, or the first account if
    /// only a single one exists and no default is specified.
    pub fn selected(&self) -> (r: Option<&Account>)
        ensures
            (match r {
                Option::Some(a) => spec_selected(self.accounts@, self.default) == Option::Some(*a),
                Option::None => spec_selected(self.accounts@, self.default) is None,
            }),
    {
        match &self.default {
            Option::Some(uuid) => {
                let r = account_by_uuid_from(&self.accounts, uuid.as_str(), 0);
                assert(self.accounts@.skip(0) =~= self.accounts@);
                r
            },
            Option::None => {
                if self.accounts.len() == 1 {
                    Option::Some(&self.accounts[0])
                } else {
                    Option::None
                }
            },
        }
    }
}

} // verus!
