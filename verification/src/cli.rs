//! The request structure and the resolver that decides which fields an
//! operation still needs before it can be dispatched.

use vstd::prelude::*;

use crate::exceptions::MultipleArgError;
use crate::text::{lower_of, str_eq, to_lower};

verus! {

/// A value that is either of one type or of another; used to pass either
/// an optional text value or a command selector to [`Arguments::set`].
#[derive(Debug, PartialEq)]
pub enum UnionType<T, U> {
    First(T),
    Second(U),
}

impl<T, U> UnionType<T, U> {
    /// The value of the first alternative.
    pub fn first(self) -> (r: T)
        requires
            self is First,
        ensures
            self == UnionType::<T, U>::First(r),
    {
        match self {
            UnionType::First(value) => value,
            UnionType::Second(_) => unreached(),
        }
    }

    /// The value of the second alternative.
    pub fn second(self) -> (r: U)
        requires
            self is Second,
        ensures
            self == UnionType::<T, U>::Second(r),
    {
        match self {
            UnionType::Second(value) => value,
            UnionType::First(_) => unreached(),
        }
    }
}

/// The three operations the vault performs.
#[derive(Clone, Copy, Debug, PartialEq, Eq, Structural)]
pub enum Command {
    Add,
    Remove,
    Get,
}

/// The command that a piece of interactive input selects: `r`/`remove`,
/// `g`/`get` and `a`/`add` are recognized, anything else is rejected.
pub open spec fn command_of(s: Seq<char>) -> Option<Command> {
    if s == "r"@ || s == "remove"@ {
        Some(Command::Remove)
    } else if s == "g"@ || s == "get"@ {
        Some(Command::Get)
    } else if s == "a"@ || s == "add"@ {
        Some(Command::Add)
    } else {
        None
    }
}

impl Command {
    /// Parses an operation selector; unrecognized input is rejected rather
    /// than aborting the process.
    pub fn parse(s: &str) -> (r: Option<Command>)
        ensures
            r == command_of(s@),
    {
        if str_eq(s, "r") || str_eq(s, "remove") {
            Some(Command::Remove)
        } else if str_eq(s, "g") || str_eq(s, "get") {
            Some(Command::Get)
        } else if str_eq(s, "a") || str_eq(s, "add") {
            Some(Command::Add)
        } else {
            None
        }
    }
}

/// The logical fields of a request, used to assign into one of the fixed
/// set of optional fields by name.
#[derive(Clone, Copy, Debug, PartialEq, Eq, Structural)]
pub enum FieldKey {
    Name,
    File,
    Username,
    Password,
    Command,
}

/// The in-progress or completed description of what operation to perform
/// and with which field values.
#[derive(Debug)]
pub struct Arguments {
    pub file: Option<String>,
    pub name: Option<String>,
    pub username: Option<String>,
    pub password: Option<String>,
    pub command: Command,
}

/// The name field is normalized to lowercase on assignment; all other
/// fields are stored verbatim.
pub open spec fn lowered_option(input: Option<String>, stored: Option<String>) -> bool {
    match input {
        Some(s) => stored matches Some(n) && n@ == lower_of(s@),
        None => stored is None,
    }
}

/// What one `set` call does to the request.
pub open spec fn set_spec(
    pre: Arguments,
    post: Arguments,
    key: FieldKey,
    value: UnionType<Option<String>, Command>,
) -> bool {
    match key {
        FieldKey::Name => post.file == pre.file && post.username == pre.username
            && post.password == pre.password && post.command == pre.command
            && lowered_option(value->First_0, post.name),
        FieldKey::File => (post == Arguments { file: value->First_0, ..pre }),
        FieldKey::Username => (post == Arguments { username: value->First_0, ..pre }),
        FieldKey::Password => (post == Arguments { password: value->First_0, ..pre }),
        FieldKey::Command => (post == Arguments { command: value->Second_0, ..pre }),
    }
}

/// A request is complete when every field its operation requires is
/// present: `Add` requires name, username and password; `Remove` and
/// `Get` require the name only.
pub open spec fn spec_complete(a: Arguments) -> bool {
    match a.command {
        Command::Add => a.name is Some && a.username is Some && a.password is Some,
        Command::Remove => a.name is Some,
        Command::Get => a.name is Some,
    }
}

/// The ordered set of still-missing required fields: name before
/// username before password.
pub open spec fn spec_missing(a: Arguments) -> Seq<FieldKey> {
    match a.command {
        Command::Add => (if a.name is None {
            seq![FieldKey::Name]
        } else {
            Seq::<FieldKey>::empty()
        }) + (if a.username is None {
            seq![FieldKey::Username]
        } else {
            Seq::<FieldKey>::empty()
        }) + (if a.password is None {
            seq![FieldKey::Password]
        } else {
            Seq::<FieldKey>::empty()
        }),
        _ => if a.name is None {
            seq![FieldKey::Name]
        } else {
            Seq::<FieldKey>::empty()
        },
    }
}

impl Arguments {
    /// The empty request: no fields, operation defaulting to `Get`.
    pub fn new() -> (r: Self)
        ensures
            r.file is None,
            r.name is None,
            r.username is None,
            r.password is None,
            r.command == Command::Get,
    {
        Self { file: None, name: None, username: None, password: None, command: Command::Get }
    }

    /// Assigns into the field that `key` names. The name field is
    /// lowercased on assignment; all other fields are stored verbatim.
    pub fn set(&mut self, key: FieldKey, value: UnionType<Option<String>, Command>)
        requires
            (key is Command) <==> (value is Second),
        ensures
            set_spec(*old(self), *final(self), key, value),
    {
        match key {
            FieldKey::Name => {
                let v = value.first();
                self.name = match v {
                    Some(s) => Some(to_lower(s.as_str())),
                    None => None,
                };
            },
            FieldKey::File => {
                self.file = value.first();
            },
            FieldKey::Username => {
                self.username = value.first();
            },
            FieldKey::Password => {
                self.password = value.first();
            },
            FieldKey::Command => {
                self.command = value.second();
            },
        }
    }

    /// Whether no flag was given at all: every field absent and the
    /// operation still the default.
    pub fn is_empty(&self) -> (r: bool)
        ensures
            r == (self.file is None && self.name is None && self.username is None
                && self.password is None && self.command == Command::Get),
    {
        self.file.is_none() && self.name.is_none() && self.username.is_none()
            && self.password.is_none() && matches!(self.command, Command::Get)
    }

    /// Whether some field that the selected operation requires is still
    /// absent.
    pub fn is_incomplete(&self) -> (r: bool)
        ensures
            r == !spec_complete(*self),
    {
        match self {
            Self {
                username: Some(_),
                password: Some(_),
                command: Command::Add,
                name: Some(_),
                ..
            } => false,
            Self { command: Command::Remove, name: Some(_), .. } => false,
            Self { command: Command::Get, name: Some(_), .. } => false,
            _ => true,
        }
    }

    /// The ordered list of required fields that are still absent; empty
    /// exactly when the request is complete.
    pub fn missing(&self) -> (r: Vec<FieldKey>)
        ensures
            r@ == spec_missing(*self),
            r@.len() == 0 <==> spec_complete(*self),
    {
        let mut fields: Vec<FieldKey> = Vec::new();
        match self.command {
            Command::Add => {
                if self.name.is_none() {
                    fields.push(FieldKey::Name);
                }
                if self.username.is_none() {
                    fields.push(FieldKey::Username);
                }
                if self.password.is_none() {
                    fields.push(FieldKey::Password);
                }
            },
            _ => {
                if self.name.is_none() {
                    fields.push(FieldKey::Name);
                }
            },
        }
        proof {
            assert(fields@ =~= spec_missing(*self));
        }
        fields
    }
}

/// Which single operation a set of flags selects, and whether more than
/// one was selected at once. `add` wins over `remove` wins over `get`;
/// with no flag at all the operation defaults to `Get`.
pub fn repetition_exists(get: bool, remove: bool, add: bool) -> (r: (Command, bool))
    ensures
        r.0 == (if add {
            Command::Add
        } else if remove {
            Command::Remove
        } else {
            Command::Get
        }),
        r.1 == ((get && remove) || (get && add) || (remove && add)),
{
    let mut count: u8 = 0;
    if get {
        count += 1;
    }
    if remove {
        count += 1;
    }
    if add {
        count += 1;
    }
    let command = if add {
        Command::Add
    } else if remove {
        Command::Remove
    } else {
        Command::Get
    };
    (command, count > 1)
}

/// Validates the operation flags of a raw invocation: more than one
/// operation selected at once is a fatal validation error, reported
/// before any prompting.
pub fn select_command(get: bool, remove: bool, add: bool) -> (r: Result<Command, MultipleArgError>)
    ensures
        ((get && remove) || (get && add) || (remove && add)) <==> r is Err,
        (r matches Ok(c) ==> c == (if add {
            Command::Add
        } else if remove {
            Command::Remove
        } else {
            Command::Get
        })),
{
    let (command, repetition) = repetition_exists(get, remove, add);
    if repetition {
        Err(MultipleArgError())
    } else {
        Ok(command)
    }
}

} // verus!
