//! Who may do what: each user has, for each kind of access, the list of
//! tasks it reaches; a request without a user reaches every configured task.

use vstd::prelude::*;
use crate::app_state::names;
use crate::cfg::{Config, User};
use crate::dict::{has_key, position_of};
use crate::event::{Event, EventView};
use crate::unit::strings;

verus! {

/// A kind of access to a task.
#[derive(Debug, Clone, Copy, PartialEq, Eq, Structural)]
pub enum Permission {
    ViewStatus,
    ViewOutput,
    Run,
    ChangeData,
}

/// The list of a user that belongs to a kind of access.
pub open spec fn listed(user: User, permission: Permission) -> Seq<Seq<char>> {
    match permission {
        Permission::ViewStatus => strings(user.can_view_status@),
        Permission::ViewOutput => strings(user.can_view_output@),
        Permission::Run => strings(user.can_run@),
        Permission::ChangeData => strings(user.can_change_data@),
    }
}

/// The tasks a request reaches: every configured task where it names no
/// user, the user's list where it names one that is known, none where it
/// names one that is not.
pub open spec fn reach(
    config: Config,
    login: Option<Seq<char>>,
    permission: Permission,
) -> Seq<Seq<char>> {
    match login {
        None => names(config.tasks@),
        Some(login) => if has_key(config.users@, login) {
            listed(config.users@[position_of(config.users@, login)].1, permission)
        } else {
            Seq::empty()
        },
    }
}

/// Whether a request is let in at all: any request where no users are
/// configured, else one that names a known user.
pub open spec fn admitted(config: Config, login: Option<Seq<char>>) -> bool {
    config.users@.len() == 0 || (login matches Some(login) && has_key(config.users@, login))
}

/// The login by its characters, where there is one.
pub open spec fn chars_of(login: Option<&str>) -> Option<Seq<char>> {
    match login {
        Some(login) => Some(login@),
        None => None,
    }
}

/// Whether `name` is in `list`.
pub fn contains(list: &Vec<String>, name: &str) -> (found: bool)
    ensures
        found == strings(list@).contains(name@),
{
    let wanted = name.to_owned();
    let n = list.len();
    let mut i: usize = 0;
    while i < n
        invariant
            i <= n,
            n == list@.len(),
            wanted@ == name@,
            forall|k: int| 0 <= k < i ==> strings(list@)[k] != name@,
        decreases n - i,
    {
        if list[i] == wanted {
            assert(strings(list@)[i as int] == name@);
            return true;
        }
        i += 1;
    }
    false
}

fn copy_strings(list: &Vec<String>) -> (copy: Vec<String>)
    ensures
        strings(copy@) == strings(list@),
{
    let mut copy: Vec<String> = Vec::new();
    let n = list.len();
    let mut i: usize = 0;
    while i < n
        invariant
            i <= n,
            n == list@.len(),
            copy@.len() == i,
            forall|k: int| 0 <= k < i ==> copy@[k]@ == list@[k]@,
        decreases n - i,
    {
        copy.push(list[i].clone());
        i += 1;
    }
    assert(strings(copy@) =~= strings(list@));
    copy
}

impl Config {
    /// Whether a request is let in at all.
    pub fn admits(&self, login: Option<&str>) -> (admitted: bool)
        ensures
            admitted == self::admitted(*self, chars_of(login)),
    {
        if self.users.len() == 0 {
            return true;
        }
        match login {
            Some(login) => self.users.contains_key(login),
            None => false,
        }
    }

    /// The tasks a request reaches with a kind of access.
    pub fn reachable(&self, login: Option<&str>, permission: Permission) -> (tasks: Vec<String>)
        ensures
            strings(tasks@) == reach(*self, chars_of(login), permission),
    {
        match login {
            None => {
                let mut tasks: Vec<String> = Vec::new();
                let n = self.tasks.len();
                let mut i: usize = 0;
                while i < n
                    invariant
                        i <= n,
                        n == self.tasks@.len(),
                        tasks@.len() == i,
                        forall|k: int| 0 <= k < i ==> tasks@[k]@ == self.tasks@[k].0,
                    decreases n - i,
                {
                    tasks.push(self.tasks.key_at(i).clone());
                    i += 1;
                }
                assert(strings(tasks@) =~= names(self.tasks@));
                tasks
            },
            Some(login) => match self.users.get(login) {
                None => {
                    let tasks: Vec<String> = Vec::new();
                    assert(strings(tasks@) =~= Seq::empty());
                    tasks
                },
                Some(user) => match permission {
                    Permission::ViewStatus => copy_strings(&user.can_view_status),
                    Permission::ViewOutput => copy_strings(&user.can_view_output),
                    Permission::Run => copy_strings(&user.can_run),
                    Permission::ChangeData => copy_strings(&user.can_change_data),
                },
            },
        }
    }

    /// Whether a request reaches `task` with a kind of access.
    pub fn can(&self, login: Option<&str>, permission: Permission, task: &str) -> (allowed: bool)
        ensures
            allowed == reach(*self, chars_of(login), permission).contains(task@),
    {
        let tasks = self.reachable(login, permission);
        contains(&tasks, task)
    }
}

/// Whether a listener that reaches `tasks` may be told `event`: the start
/// and the finish of a task only if it reaches the task, all else always.
pub open spec fn tellable(event: EventView, tasks: Seq<Seq<char>>) -> bool {
    match event {
        EventView::Started(task, _) => tasks.contains(task),
        EventView::Finished(task, _) => tasks.contains(task),
        _ => true,
    }
}

impl Event {
    /// Whether a listener that reaches `tasks` may be told this event.
    pub fn visible_to(&self, tasks: &Vec<String>) -> (visible: bool)
        ensures
            visible == tellable(self@, strings(tasks@)),
    {
        match self {
            Event::Started(task, _) => contains(tasks, task.as_str()),
            Event::Finished(task, _) => contains(tasks, task.as_str()),
            _ => true,
        }
    }
}

} // verus!
