//! Account management (XEP-0077): changing the password and deleting the
//! account, and matching the server's answers to those requests.
use vstd::prelude::*;
use crate::util::ext::{is_uuid_v4_text, new_uuid};
use crate::util::maps::StrSet;
use crate::util::strs::str_eq;
use crate::util::xml::{Element, ElementView, elem};
use super::NS_CLIENT;
use super::registration::NS_REGISTER;

verus! {

broadcast use crate::util::xml::group_xml;

/// Which request an answer belongs to.
#[derive(Debug, Clone, Copy, PartialEq, Eq, Structural)]
pub enum AccountIqKind {
    ChangePassword,
    DeleteAccount,
}

/// The answer to an account request.
#[derive(Debug, Clone, Copy, PartialEq, Eq, Structural)]
pub struct AccountIqResult {
    pub kind: AccountIqKind,
    pub success: bool,
}

/// The `<iq type='set'>` with id `id` around a register `<query>` holding `children`.
pub open spec fn register_set(id: Seq<char>, query: ElementView) -> ElementView {
    elem("iq"@, NS_CLIENT@).with_attr("type"@, "set"@).with_attr("id"@, id).with_child(query)
}

/// The query changing the password of `username` to `password`.
pub open spec fn change_password_query(username: Seq<char>, password: Seq<char>) -> ElementView {
    elem("query"@, NS_REGISTER@).with_child(elem("username"@, NS_REGISTER@).with_text(username)).with_child(
        elem("password"@, NS_REGISTER@).with_text(password),
    )
}

pub struct AccountManager {
    pending_change_password: StrSet,
    pending_delete_account: StrSet,
}

impl AccountManager {
    /// Ids of password changes awaiting their answer.
    pub closed spec fn pending_change(&self) -> Set<Seq<char>> {
        self.pending_change_password.view()
    }

    /// Ids of account deletions awaiting their answer.
    pub closed spec fn pending_delete(&self) -> Set<Seq<char>> {
        self.pending_delete_account.view()
    }

    pub fn new() -> (r: Self)
        ensures
            r.pending_change() == Set::<Seq<char>>::empty(),
            r.pending_delete() == Set::<Seq<char>>::empty(),
    {
        AccountManager { pending_change_password: StrSet::new(), pending_delete_account: StrSet::new() }
    }

    /// The request changing the password, under a fresh id recorded as pending.
    pub fn build_change_password_iq(&mut self, username: &str, new_password: &str) -> (r: (String, Element))
        ensures
            is_uuid_v4_text(r.0@),
            r.1@ == register_set(r.0@, change_password_query(username@, new_password@)),
            final(self).pending_change() == old(self).pending_change().insert(r.0@),
            final(self).pending_delete() == old(self).pending_delete(),
    {
        let id = new_uuid();
        self.pending_change_password.insert(id.clone());
        let query = Element::new("query", NS_REGISTER).with_child(Element::new("username", NS_REGISTER).with_text(username)).with_child(
            Element::new("password", NS_REGISTER).with_text(new_password),
        );
        let iq = Element::new("iq", NS_CLIENT).with_attr("type", "set").with_attr("id", id.as_str()).with_child(query);
        (id, iq)
    }

    /// The request deleting the account, under a fresh id recorded as pending.
    pub fn build_delete_account_iq(&mut self) -> (r: (String, Element))
        ensures
            is_uuid_v4_text(r.0@),
            r.1@ == register_set(r.0@, elem("query"@, NS_REGISTER@).with_child(elem("remove"@, NS_REGISTER@))),
            final(self).pending_delete() == old(self).pending_delete().insert(r.0@),
            final(self).pending_change() == old(self).pending_change(),
    {
        let id = new_uuid();
        self.pending_delete_account.insert(id.clone());
        let query = Element::new("query", NS_REGISTER).with_child(Element::new("remove", NS_REGISTER));
        let iq = Element::new("iq", NS_CLIENT).with_attr("type", "set").with_attr("id", id.as_str()).with_child(query);
        (id, iq)
    }

    /// Matches an answer with its request: a pending password change first,
    /// then a pending deletion. It succeeded when the answer's type is `result`.
    pub fn on_iq_result(&mut self, el: &Element) -> (r: Option<AccountIqResult>)
        ensures
            match (el@.attr("type"@), el@.attr("id"@)) {
                (Some(ty), Some(id)) => {
                    let ok = ty == "result"@;
                    if old(self).pending_change().contains(id) {
                        &&& r == Some(AccountIqResult { kind: AccountIqKind::ChangePassword, success: ok })
                        &&& final(self).pending_change() == old(self).pending_change().remove(id)
                        &&& final(self).pending_delete() == old(self).pending_delete()
                    } else if old(self).pending_delete().contains(id) {
                        &&& r == Some(AccountIqResult { kind: AccountIqKind::DeleteAccount, success: ok })
                        &&& final(self).pending_delete() == old(self).pending_delete().remove(id)
                        &&& final(self).pending_change() == old(self).pending_change()
                    } else {
                        &&& r is None
                        &&& final(self).pending_change() == old(self).pending_change()
                        &&& final(self).pending_delete() == old(self).pending_delete()
                    }
                },
                _ => r is None && final(self).pending_change() == old(self).pending_change() && final(self).pending_delete()
                    == old(self).pending_delete(),
            },
    {
        let ty = match el.attr("type") {
            Some(t) => t,
            None => return None,
        };
        let id = match el.attr("id") {
            Some(i) => i,
            None => return None,
        };
        let ok = str_eq(ty, "result");
        if self.pending_change_password.contains(id) {
            self.pending_change_password.remove(id);
            return Some(AccountIqResult { kind: AccountIqKind::ChangePassword, success: ok });
        }
        if self.pending_delete_account.contains(id) {
            self.pending_delete_account.remove(id);
            return Some(AccountIqResult { kind: AccountIqKind::DeleteAccount, success: ok });
        }
        None
    }
}

} // verus!
