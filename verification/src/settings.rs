//! The user's settings and their default values.

use vstd::prelude::*;
use vstd::string::StringExecFns;
use crate::text::{chars_of, string_of};

verus! {

/// The keys that trigger an action.
#[derive(Debug)]
pub struct Keybinding {
    pub action: String,
    pub keys: Vec<String>,
}

/// The user's settings.
#[derive(Debug)]
pub struct Settings {
    pub theme: String,
    pub accent: Option<String>,
    /// One binding per action.
    pub keybindings: Vec<Keybinding>,
    pub locale: String,
    pub default_search: String,
    pub dnt: bool,
    pub profile_path: String,
}

/// The views of a sequence of strings.
pub open spec fn key_views(keys: Seq<String>) -> Seq<Seq<char>> {
    Seq::new(keys.len(), |i: int| keys[i]@)
}

/// The bindings as pairs of action and keys.
pub open spec fn binding_views(bs: Seq<Keybinding>) -> Seq<(Seq<char>, Seq<Seq<char>>)> {
    Seq::new(bs.len(), |i: int| (bs[i].action@, key_views(bs[i].keys@)))
}

/// The default key bindings.
pub open spec fn default_bindings() -> Seq<(Seq<char>, Seq<Seq<char>>)> {
    seq![
        ("newTab"@, seq!["Control"@, "KeyT"@]),
        ("closeTab"@, seq!["Control"@, "KeyW"@]),
        ("nextTab"@, seq!["Control"@, "Tab"@]),
        ("prevTab"@, seq!["Control"@, "Shift"@, "Tab"@]),
        ("reopenClosed"@, seq!["Control"@, "Shift"@, "KeyT"@]),
        ("focusAddress"@, seq!["Control"@, "KeyL"@]),
        ("newWindow"@, seq!["Control"@, "KeyN"@]),
        ("tabSearch"@, seq!["Control"@, "KeyK"@]),
    ]
}

/// No action is bound twice.
pub open spec fn unique_actions(bs: Seq<(Seq<char>, Seq<Seq<char>>)>) -> bool {
    forall|i: int, j: int| 0 <= i < j < bs.len() ==> bs[i].0 != bs[j].0
}

/// The default bindings bind every action once.
pub proof fn lemma_default_bindings_unique()
    ensures
        unique_actions(default_bindings()),
{
    reveal_strlit("newTab");
    reveal_strlit("closeTab");
    reveal_strlit("nextTab");
    reveal_strlit("prevTab");
    reveal_strlit("reopenClosed");
    reveal_strlit("focusAddress");
    reveal_strlit("newWindow");
    reveal_strlit("tabSearch");
    let b = default_bindings();
    assert(b[2].0[0] != b[3].0[0]);
    assert(b[4].0[0] != b[5].0[0]);
    assert(b[6].0[0] != b[7].0[0]);
    assert forall|i: int, j: int| 0 <= i < j < b.len() implies b[i].0 != b[j].0 by {
        if b[i].0.len() == b[j].0.len() {
            assert(b[i].0[0] != b[j].0[0]);
        }
    }
}

/// A binding of two keys.
fn binding2(action: &str, a: &str, b: &str) -> (k: Keybinding)
    ensures
        k.action@ == action@,
        key_views(k.keys@) == seq![a@, b@],
{
    let mut keys: Vec<String> = Vec::new();
    keys.push(a.to_owned());
    keys.push(b.to_owned());
    assert(key_views(keys@) =~= seq![a@, b@]);
    Keybinding { action: action.to_owned(), keys }
}

/// A binding of three keys.
fn binding3(action: &str, a: &str, b: &str, c: &str) -> (k: Keybinding)
    ensures
        k.action@ == action@,
        key_views(k.keys@) == seq![a@, b@, c@],
{
    let mut keys: Vec<String> = Vec::new();
    keys.push(a.to_owned());
    keys.push(b.to_owned());
    keys.push(c.to_owned());
    assert(key_views(keys@) =~= seq![a@, b@, c@]);
    Keybinding { action: action.to_owned(), keys }
}

impl Default for Settings {
    fn default() -> (s: Settings)
        ensures
            s.theme@ == "auto"@,
            s.accent is None,
            binding_views(s.keybindings@) == default_bindings(),
            unique_actions(binding_views(s.keybindings@)),
            s.locale@ == "en"@,
            s.default_search@ == "https://www.google.com/search?q="@,
            !s.dnt,
            s.profile_path@ == Seq::<char>::empty(),
    {
        let mut keybindings: Vec<Keybinding> = Vec::new();
        keybindings.push(binding2("newTab", "Control", "KeyT"));
        keybindings.push(binding2("closeTab", "Control", "KeyW"));
        keybindings.push(binding2("nextTab", "Control", "Tab"));
        keybindings.push(binding3("prevTab", "Control", "Shift", "Tab"));
        keybindings.push(binding3("reopenClosed", "Control", "Shift", "KeyT"));
        keybindings.push(binding2("focusAddress", "Control", "KeyL"));
        keybindings.push(binding2("newWindow", "Control", "KeyN"));
        keybindings.push(binding2("tabSearch", "Control", "KeyK"));
        proof {
            assert(binding_views(keybindings@) =~= default_bindings());
            lemma_default_bindings_unique();
        }
        Settings {
            theme: String::from_str("auto"),
            accent: None,
            keybindings,
            locale: String::from_str("en"),
            default_search: String::from_str("https://www.google.com/search?q="),
            dnt: false,
            profile_path: String::new(),
        }
    }
}

impl Settings {
    /// The binding for `action`.
    pub fn binding_for(&self, action: &str) -> (r: Option<&Keybinding>)
        ensures
            match r {
                Some(k) => k.action@ == action@ && self.keybindings@.contains(*k),
                None => forall|i: int|
                    0 <= i < self.keybindings@.len() ==> (#[trigger] self.keybindings@[i]).action@
                        != action@,
            },
    {
        let mut i: usize = 0;
        while i < self.keybindings.len()
            invariant
                i <= self.keybindings.len(),
                forall|j: int| 0 <= j < i ==> (#[trigger] self.keybindings@[j]).action@ != action@,
            decreases self.keybindings.len() - i,
        {
            if *self.keybindings[i].action.as_str() == *action {
                return Some(&self.keybindings[i]);
            }
            i += 1;
        }
        None
    }
}

/// A directory and a file name joined by one `/`: an empty directory gives
/// the file name alone, a directory that ends in `/` gets no second one.
pub open spec fn joined(dir: Seq<char>, file: Seq<char>) -> Seq<char> {
    if dir.len() == 0 {
        file
    } else if dir.last() == '/' {
        dir + file
    } else {
        dir.push('/') + file
    }
}

/// Joins a directory and a file name.
pub fn join_path(dir: &str, file: &str) -> (r: String)
    ensures
        r@ == joined(dir@, file@),
{
    let d = chars_of(dir);
    let mut r = string_of(d.as_slice());
    if d.len() > 0 && d[d.len() - 1] != '/' {
        r.push('/');
    }
    r.append(file);
    assert(r@ =~= joined(dir@, file@));
    r
}

/// The settings file inside the configuration directory.
pub fn get_settings_path(config_dir: &str) -> (path: String)
    ensures
        path@ == joined(config_dir@, "settings.json"@),
{
    join_path(config_dir, "settings.json")
}

} // verus!
