use vstd::prelude::*;

verus! {

/// One entry of the demo application's todo list.
pub struct Todo {
    pub id: u32,
    pub text: String,
    pub completed: bool,
}

/// The signed-in user of the demo application.
pub struct User {
    pub name: String,
    pub email: String,
}

/// The demo application's state: a counter, a todo list and an optional
/// user. The callbacks that mutate it live outside the library, behind
/// the process's own calling conventions.
pub struct AppState {
    pub counter: i32,
    pub todos: Vec<Todo>,
    pub user: Option<User>,
}

} // verus!
