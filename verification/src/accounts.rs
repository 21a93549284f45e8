//! What the service says of an account's workspaces, and what a session keeps of it.

use vstd::prelude::*;

use crate::model::copy_text;
use crate::model::AccountSessionWorkspace;
use crate::model::AccountSessionWorkspaceKind;
use crate::model::SessionView;
use crate::model::StoredAccountSession;
use crate::model::WorkspaceView;

verus! {

/// One account that the service lists.
#[derive(Debug, PartialEq, Eq)]
pub struct AccountEntry {
    pub id: String,
    pub structure: String,
    pub name: Option<String>,
    pub profile_picture_url: Option<String>,
}

#[verifier::ext_equal]
pub struct AccountEntryView {
    pub id: Seq<char>,
    pub structure: Seq<char>,
    pub name: Option<Seq<char>>,
    pub profile_picture_url: Option<Seq<char>>,
}

impl View for AccountEntry {
    type V = AccountEntryView;

    open spec fn view(&self) -> AccountEntryView {
        AccountEntryView {
            id: self.id@,
            structure: self.structure@,
            name: self.name.deep_view(),
            profile_picture_url: self.profile_picture_url.deep_view(),
        }
    }
}

impl DeepView for AccountEntry {
    type V = AccountEntryView;

    open spec fn deep_view(&self) -> AccountEntryView {
        self@
    }
}

/// The accounts that the service lists for a login.
#[derive(Debug, PartialEq, Eq)]
pub struct AccountsCheck {
    pub accounts: Vec<AccountEntry>,
    pub default_account_id: Option<String>,
    pub account_ordering: Vec<String>,
}

#[verifier::ext_equal]
pub struct AccountsView {
    pub accounts: Seq<AccountEntryView>,
    pub default_account_id: Option<Seq<char>>,
    pub account_ordering: Seq<Seq<char>>,
}

impl View for AccountsCheck {
    type V = AccountsView;

    open spec fn view(&self) -> AccountsView {
        AccountsView {
            accounts: self.accounts.deep_view(),
            default_account_id: self.default_account_id.deep_view(),
            account_ordering: self.account_ordering.deep_view(),
        }
    }
}

/// The kind of workspace that an account's structure names, if it is a known one.
pub open spec fn kind_of(structure: Seq<char>) -> Option<AccountSessionWorkspaceKind> {
    if structure == "personal"@ {
        Some(AccountSessionWorkspaceKind::Personal)
    } else if structure == "workspace"@ {
        Some(AccountSessionWorkspaceKind::Workspace)
    } else {
        None
    }
}

impl AccountEntryView {
    /// The workspace that an account stands for.
    pub open spec fn workspace(self) -> WorkspaceView {
        WorkspaceView {
            account_id: self.id,
            name: self.name,
            image_url: self.profile_picture_url,
            kind: kind_of(self.structure),
        }
    }
}

impl SessionView {
    /// The session with the workspaces that the service lists. A selected workspace stays
    /// selected; else it is the default account, or else the first in the account order.
    pub open spec fn with_accounts(self, accounts: AccountsView) -> SessionView {
        SessionView {
            selected_workspace_account_id: if self.selected_workspace_account_id is Some {
                self.selected_workspace_account_id
            } else if accounts.default_account_id is Some {
                accounts.default_account_id
            } else if accounts.account_ordering.len() > 0 {
                Some(accounts.account_ordering[0])
            } else {
                None
            },
            workspaces: Seq::new(
                accounts.accounts.len(),
                |i: int| accounts.accounts[i].workspace(),
            ),
            ..self
        }
    }

    /// Whether the session lists a workspace.
    pub open spec fn knows_workspace(self, account_id: Seq<char>) -> bool {
        exists|i: int|
            0 <= i < self.workspaces.len() && (#[trigger] self.workspaces[i]).account_id
                == account_id
    }
}

/// The workspace that an account stands for.
pub fn workspace_from_account(account: &AccountEntry) -> (workspace: AccountSessionWorkspace)
    ensures
        workspace@ == account@.workspace(),
{
    let kind = if account.structure == "personal".to_owned() {
        Some(AccountSessionWorkspaceKind::Personal)
    } else if account.structure == "workspace".to_owned() {
        Some(AccountSessionWorkspaceKind::Workspace)
    } else {
        None
    };
    AccountSessionWorkspace {
        account_id: account.id.clone(),
        name: copy_text(&account.name),
        image_url: copy_text(&account.profile_picture_url),
        kind,
    }
}

/// Takes over what the service lists into a session.
pub fn refresh_session(session: StoredAccountSession, accounts: AccountsCheck) -> (refreshed:
    StoredAccountSession)
    ensures
        refreshed@ == session@.with_accounts(accounts@),
{
    let mut workspaces: Vec<AccountSessionWorkspace> = Vec::new();
    let mut i: usize = 0;
    while i < accounts.accounts.len()
        invariant
            i <= accounts.accounts.len(),
            workspaces.len() == i,
            forall|j: int|
                0 <= j < i ==> (#[trigger] workspaces[j])@ == accounts.accounts[j]@.workspace(),
        decreases accounts.accounts.len() - i,
    {
        workspaces.push(workspace_from_account(&accounts.accounts[i]));
        i = i + 1;
    }
    let selected = match session.selected_workspace_account_id {
        Some(account_id) => Some(account_id),
        None => match accounts.default_account_id {
            Some(account_id) => Some(account_id),
            None => if accounts.account_ordering.len() > 0 {
                Some(accounts.account_ordering[0].clone())
            } else {
                None
            },
        },
    };
    let refreshed = StoredAccountSession {
        session_id: session.session_id,
        email: session.email,
        user_id: session.user_id,
        display_name: session.display_name,
        image_url: session.image_url,
        last_used_at: session.last_used_at,
        selected_workspace_account_id: selected,
        workspaces,
    };
    assert(refreshed@.workspaces == session@.with_accounts(accounts@).workspaces);
    refreshed
}

/// Whether the session lists a workspace.
pub fn knows_workspace(session: &StoredAccountSession, account_id: &String) -> (known: bool)
    ensures
        known == session@.knows_workspace(account_id@),
{
    let mut i: usize = 0;
    while i < session.workspaces.len()
        invariant
            i <= session.workspaces.len(),
            forall|j: int|
                0 <= j < i ==> (#[trigger] session@.workspaces[j]).account_id != account_id@,
        decreases session.workspaces.len() - i,
    {
        if session.workspaces[i].account_id == *account_id {
            assert(session@.workspaces[i as int].account_id == account_id@);
            return true;
        }
        i = i + 1;
    }
    false
}

} // verus!
