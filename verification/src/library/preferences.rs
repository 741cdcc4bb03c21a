//! Preference dialogs: hierarchical panes of input fields. The core never
//! interprets field contents; it only correlates requests and responses.

use crate::smap::StringMap;
use vstd::prelude::*;

verus! {

/// The scope of a preference dialog: one library item, or the whole module.
#[derive(Debug)]
pub enum DiagType {
    Item(String),
    Module,
}

impl Clone for DiagType {
    fn clone(&self) -> (r: Self)
        ensures
            r == *self,
    {
        match self {
            DiagType::Item(u) => DiagType::Item(u.clone()),
            DiagType::Module => DiagType::Module,
        }
    }
}

impl View for DiagType {
    type V = Option<Seq<char>>;

    /// `Item(u)` is `Some(u)`, `Module` is `None`.
    open spec fn view(&self) -> Option<Seq<char>> {
        match self {
            DiagType::Item(u) => Some(u@),
            DiagType::Module => None,
        }
    }
}

impl PartialEq for DiagType {
    fn eq(&self, other: &Self) -> (r: bool) {
        match (self, other) {
            (DiagType::Item(a), DiagType::Item(b)) => *a == *b,
            (DiagType::Module, DiagType::Module) => true,
            _ => false,
        }
    }
}

impl vstd::std_specs::cmp::PartialEqSpecImpl for DiagType {
    open spec fn obeys_eq_spec() -> bool {
        true
    }

    open spec fn eq_spec(&self, other: &Self) -> bool {
        self@ == other@
    }
}

/// A numeric input field. The core never computes with these values, so
/// each one is carried as the raw bit pattern of an IEEE 754 double; the
/// edges of the system convert to and from the native representation.
#[derive(Debug, Clone, Copy, PartialEq, Eq, Structural)]
pub struct InputNum {
    pub range_lo: u64,
    pub range_hi: u64,
    pub value: u64,
    pub step: u64,
}

#[derive(Debug, Clone)]
pub enum InputType {
    Text(String),
    Email(String),
    Phone(String),
    Url(String),
    Number(InputNum),
    Password(String),
}

impl InputType {
    pub fn try_get_str(self) -> (r: Option<String>)
        ensures
            match self {
                InputType::Text(s) => r == Some(s),
                InputType::Email(s) => r == Some(s),
                InputType::Phone(s) => r == Some(s),
                InputType::Url(s) => r == Some(s),
                InputType::Password(s) => r == Some(s),
                InputType::Number(_) => r is None,
            },
    {
        match self {
            InputType::Text(s) => Some(s),
            InputType::Email(s) => Some(s),
            InputType::Phone(s) => Some(s),
            InputType::Url(s) => Some(s),
            InputType::Password(s) => Some(s),
            InputType::Number(_) => None,
        }
    }

    pub fn get_str(self) -> (r: String)
        requires
            !(self is Number),
        ensures
            match self {
                InputType::Text(s) => r == s,
                InputType::Email(s) => r == s,
                InputType::Phone(s) => r == s,
                InputType::Url(s) => r == s,
                InputType::Password(s) => r == s,
                InputType::Number(_) => false,
            },
    {
        self.try_get_str().unwrap()
    }
}

/// One field of a preference dialog. Key-value lists do not honor any
/// ordering.
#[derive(Debug, Clone)]
pub enum FieldType {
    Input(InputType),
    Checkbox(bool),
    Dropdown(usize, Vec<String>),
    List(Vec<String>),
    KeyValueList(StringMap<String>),
}

impl FieldType {
    pub fn try_get_input(self) -> (r: Option<InputType>)
        ensures
            match self {
                FieldType::Input(i) => r == Some(i),
                _ => r is None,
            },
    {
        match self {
            FieldType::Input(i) => Some(i),
            _ => None,
        }
    }

    pub fn try_get_checkbox(self) -> (r: Option<bool>)
        ensures
            match self {
                FieldType::Checkbox(b) => r == Some(b),
                _ => r is None,
            },
    {
        match self {
            FieldType::Checkbox(b) => Some(b),
            _ => None,
        }
    }

    pub fn try_get_dropdown_index(self) -> (r: Option<usize>)
        ensures
            match self {
                FieldType::Dropdown(i, _) => r == Some(i),
                _ => r is None,
            },
    {
        match self {
            FieldType::Dropdown(i, _) => Some(i),
            _ => None,
        }
    }

    pub fn try_get_dropdown_ref(&self) -> (r: Option<&String>)
        ensures
            match self {
                FieldType::Dropdown(i, vs) => {
                    if (*i as int) < vs@.len() {
                        r matches Some(s) && *s == vs@[*i as int]
                    } else {
                        r is None
                    }
                },
                _ => r is None,
            },
    {
        match self {
            FieldType::Dropdown(i, vs) => {
                if *i < vs.len() {
                    Some(&vs[*i])
                } else {
                    None
                }
            },
            _ => None,
        }
    }

    /// The selected dropdown entry, taken out of the list.
    pub fn try_get_dropdown_value(self) -> (r: Option<String>)
        requires
            self matches FieldType::Dropdown(i, vs) ==> (i as int) < vs@.len(),
        ensures
            match self {
                FieldType::Dropdown(i, vs) => r == Some(vs[i as int]),
                _ => r is None,
            },
    {
        match self {
            FieldType::Dropdown(i, mut vs) => Some(vs.swap_remove(i)),
            _ => None,
        }
    }

    pub fn try_get_list(self) -> (r: Option<Vec<String>>)
        ensures
            match self {
                FieldType::List(l) => r == Some(l),
                _ => r is None,
            },
    {
        match self {
            FieldType::List(l) => Some(l),
            _ => None,
        }
    }

    pub fn try_get_kvlist(self) -> (r: Option<StringMap<String>>)
        ensures
            match self {
                FieldType::KeyValueList(kv) => r == Some(kv),
                _ => r is None,
            },
    {
        match self {
            FieldType::KeyValueList(kv) => Some(kv),
            _ => None,
        }
    }

    pub fn get_input(self) -> (r: InputType)
        requires
            self is Input,
        ensures
            self matches FieldType::Input(i) && r == i,
    {
        self.try_get_input().unwrap()
    }

    pub fn get_checkbox(self) -> (r: bool)
        requires
            self is Checkbox,
        ensures
            self matches FieldType::Checkbox(b) && r == b,
    {
        self.try_get_checkbox().unwrap()
    }

    pub fn get_dropdown_index(self) -> (r: usize)
        requires
            self is Dropdown,
        ensures
            self matches FieldType::Dropdown(i, _) && r == i,
    {
        self.try_get_dropdown_index().unwrap()
    }

    pub fn get_dropdown_ref(&self) -> (r: &String)
        requires
            self matches FieldType::Dropdown(i, vs) && (i as int) < vs@.len(),
        ensures
            self matches FieldType::Dropdown(i, vs) && *r == vs@[i as int],
    {
        self.try_get_dropdown_ref().unwrap()
    }

    pub fn get_dropdown_value(self) -> (r: String)
        requires
            self matches FieldType::Dropdown(i, vs) && (i as int) < vs@.len(),
        ensures
            self matches FieldType::Dropdown(i, vs) && r == vs[i as int],
    {
        self.try_get_dropdown_value().unwrap()
    }

    pub fn get_list(self) -> (r: Vec<String>)
        requires
            self is List,
        ensures
            self matches FieldType::List(l) && r == l,
    {
        self.try_get_list().unwrap()
    }

    pub fn get_kvlist(self) -> (r: StringMap<String>)
        requires
            self is KeyValueList,
        ensures
            self matches FieldType::KeyValueList(kv) && r == kv,
    {
        self.try_get_kvlist().unwrap()
    }
}

#[derive(Debug, Clone)]
pub struct InputField {
    pub uuid: String,
    pub title: String,
    pub subtitle: Option<String>,
    pub kind: FieldType,
}

#[derive(Debug, Clone)]
pub struct PreferenceGroup {
    pub title: String,
    pub description: Option<String>,
    pub fields: Vec<InputField>,
}

#[derive(Debug, Clone)]
pub struct PreferencePane {
    pub title: String,
    pub icon: Option<String>,
    pub groups: Vec<PreferenceGroup>,
}

#[derive(Debug, Clone)]
pub struct PreferenceDiag {
    pub uuid: String,
    pub panes: Vec<PreferencePane>,
}


/// One outstanding preference dialog: the plugin and scope it was asked
/// of, the frontend that asked, and that frontend's correlation id.
#[derive(Debug)]
pub struct PrefEntry {
    pub module: String,
    pub scope: DiagType,
    pub frontend: String,
    pub correlation: Option<String>,
}

/// First match of the `(module, scope)` key in the entry sequence.
pub open spec fn pref_lookup(s: Seq<PrefEntry>, m: Seq<char>, d: Option<Seq<char>>) -> Option<
    PrefEntry,
>
    decreases s.len(),
{
    if s.len() == 0 {
        None
    } else if s[0].module@ == m && s[0].scope@ == d {
        Some(s[0])
    } else {
        pref_lookup(s.drop_first(), m, d)
    }
}

pub proof fn lemma_pref_lookup_some(s: Seq<PrefEntry>, m: Seq<char>, d: Option<Seq<char>>)
    ensures
        pref_lookup(s, m, d) is Some <==> exists|i: int|
            0 <= i < s.len() && s[i].module@ == m && s[i].scope@ == d,
        pref_lookup(s, m, d) matches Some(e) ==> e.module@ == m && e.scope@ == d && exists|i: int|
            0 <= i < s.len() && s[i] == e,
    decreases s.len(),
{
    if s.len() > 0 {
        lemma_pref_lookup_some(s.drop_first(), m, d);
        if s[0].module@ == m && s[0].scope@ == d {
        } else {
            if pref_lookup(s, m, d) is Some {
                let e = pref_lookup(s, m, d)->Some_0;
                let i = choose|i: int|
                    0 <= i < s.drop_first().len() && s.drop_first()[i].module@ == m
                        && s.drop_first()[i].scope@ == d;
                assert(s[i + 1].module@ == m && s[i + 1].scope@ == d);
                let j = choose|j: int| 0 <= j < s.drop_first().len() && s.drop_first()[j] == e;
                assert(s[j + 1] == e);
            }
            if exists|i: int| 0 <= i < s.len() && s[i].module@ == m && s[i].scope@ == d {
                let i = choose|i: int| 0 <= i < s.len() && s[i].module@ == m && s[i].scope@ == d;
                assert(s.drop_first()[i - 1].module@ == m && s.drop_first()[i - 1].scope@ == d);
            }
        }
    }
}

pub proof fn lemma_pref_lookup_remove(
    s: Seq<PrefEntry>,
    i: int,
    m: Seq<char>,
    d: Option<Seq<char>>,
)
    requires
        0 <= i < s.len(),
        !(s[i].module@ == m && s[i].scope@ == d),
    ensures
        pref_lookup(s.remove(i), m, d) == pref_lookup(s, m, d),
    decreases s.len(),
{
    if i == 0 {
        assert(s.remove(0) =~= s.drop_first());
    } else {
        assert(s.remove(i).drop_first() =~= s.drop_first().remove(i - 1));
        assert(s.remove(i)[0] == s[0]);
        lemma_pref_lookup_remove(s.drop_first(), i - 1, m, d);
    }
}

pub proof fn lemma_pref_lookup_push(
    s: Seq<PrefEntry>,
    e: PrefEntry,
    m: Seq<char>,
    d: Option<Seq<char>>,
)
    ensures
        pref_lookup(s.push(e), m, d) == if pref_lookup(s, m, d) is Some {
            pref_lookup(s, m, d)
        } else if e.module@ == m && e.scope@ == d {
            Some(e)
        } else {
            None
        },
    decreases s.len(),
{
    if s.len() == 0 {
        assert(s.push(e)[0] == e);
        let t = s.push(e).drop_first();
        assert(t =~= s);
        assert(pref_lookup(t, m, d) == pref_lookup(s, m, d));
        assert(pref_lookup(s, m, d) is None);
        if e.module@ == m && e.scope@ == d {
            assert(pref_lookup(s.push(e), m, d) == Some(e));
        } else {
            assert(pref_lookup(s.push(e), m, d) == pref_lookup(t, m, d));
        }
    } else {
        assert(s.push(e)[0] == s[0]);
        assert(s.push(e).drop_first() =~= s.drop_first().push(e));
        lemma_pref_lookup_push(s.drop_first(), e, m, d);
        if s[0].module@ == m && s[0].scope@ == d {
            assert(pref_lookup(s.push(e), m, d) == Some(s[0]));
            assert(pref_lookup(s, m, d) == Some(s[0]));
        } else {
            assert(pref_lookup(s.push(e), m, d) == pref_lookup(s.drop_first().push(e), m, d));
            assert(pref_lookup(s, m, d) == pref_lookup(s.drop_first(), m, d));
        }
    }
}

/// The outstanding-dialog table, at most one entry per `(plugin, scope)`
/// key.
#[derive(Debug)]
pub struct PrefMap {
    entries: Vec<PrefEntry>,
}

impl PrefMap {
    pub closed spec fn entry_seq(&self) -> Seq<PrefEntry> {
        self.entries@
    }

    /// No `(plugin, scope)` key occurs twice.
    pub open spec fn wf(&self) -> bool {
        forall|i: int, j: int|
            0 <= i < j < self.entry_seq().len() ==> !(self.entry_seq()[i].module@
                == self.entry_seq()[j].module@ && self.entry_seq()[i].scope@
                == self.entry_seq()[j].scope@)
    }

    pub open spec fn lookup(&self, m: Seq<char>, d: Option<Seq<char>>) -> Option<PrefEntry> {
        pref_lookup(self.entry_seq(), m, d)
    }

    pub fn new() -> (r: Self)
        ensures
            r.wf(),
            r.entry_seq() == Seq::<PrefEntry>::empty(),
            forall|m: Seq<char>, d: Option<Seq<char>>| r.lookup(m, d) is None,
    {
        PrefMap { entries: Vec::new() }
    }

    fn index_of(&self, module: &String, scope: &DiagType) -> (r: Option<usize>)
        ensures
            match r {
                Some(i) => i < self.entry_seq().len() && self.entry_seq()[i as int].module@
                    == module@ && self.entry_seq()[i as int].scope@ == scope@ && self.lookup(
                    module@,
                    scope@,
                ) == Some(self.entry_seq()[i as int]),
                None => self.lookup(module@, scope@) is None,
            },
    {
        let n = self.entries.len();
        for i in 0..n
            invariant
                n == self.entry_seq().len(),
                forall|j: int|
                    0 <= j < i ==> !((#[trigger] self.entry_seq()[j]).module@ == module@
                        && self.entry_seq()[j].scope@ == scope@),
        {
            let e = &self.entries[i];
            if e.module == *module && e.scope == *scope {
                proof {
                    lemma_pref_first_match(self.entry_seq(), i as int, module@, scope@);
                }
                return Some(i);
            }
        }
        proof {
            lemma_pref_lookup_some(self.entry_seq(), module@, scope@);
        }
        None
    }

    /// Record an outstanding dialog; a request under the same key replaces
    /// the earlier one, so each key has at most one entry.
    pub fn insert(&mut self, module: String, scope: DiagType, frontend: String, correlation: Option<
        String,
    >)
        requires
            old(self).wf(),
        ensures
            final(self).wf(),
            final(self).lookup(module@, scope@) matches Some(e) && e.frontend == frontend
                && e.correlation == correlation && e.module == module && e.scope == scope,
            forall|m: Seq<char>, d: Option<Seq<char>>|
                !(m == module@ && d == scope@) ==> final(self).lookup(m, d) == old(self).lookup(
                    m,
                    d,
                ),
    {
        let ghost pre = self.entry_seq();
        match self.index_of(&module, &scope) {
            Some(i) => {
                self.entries.remove(i);
                proof {
                    lemma_pref_remove_distinct(pre, i as int);
                    assert forall|m: Seq<char>, d: Option<Seq<char>>|
                        !(m == module@ && d == scope@) implies pref_lookup(
                        self.entry_seq(),
                        m,
                        d,
                    ) == pref_lookup(pre, m, d) by {
                        lemma_pref_lookup_remove(pre, i as int, m, d);
                    }
                    lemma_pref_none_after_remove(pre, i as int, module@, scope@, self.entry_seq());
                }
            },
            None => (),
        }
        let ghost mid = self.entry_seq();
        proof {
            lemma_pref_lookup_some(mid, module@, scope@);
        }
        let entry = PrefEntry { module, scope, frontend, correlation };
        self.entries.push(entry);
        proof {
            assert(self.entry_seq() =~= mid.push(self.entry_seq().last()));
            assert forall|m: Seq<char>, d: Option<Seq<char>>| true implies pref_lookup(
                self.entry_seq(),
                m,
                d,
            ) == (if pref_lookup(mid, m, d) is Some {
                pref_lookup(mid, m, d)
            } else if self.entry_seq().last().module@ == m && self.entry_seq().last().scope@
                == d {
                Some(self.entry_seq().last())
            } else {
                None
            }) by {
                lemma_pref_lookup_push(mid, self.entry_seq().last(), m, d);
            }
            assert forall|i: int, j: int|
                0 <= i < j < self.entry_seq().len() implies !(self.entry_seq()[i].module@
                == self.entry_seq()[j].module@ && self.entry_seq()[i].scope@
                == self.entry_seq()[j].scope@) by {
                if j == self.entry_seq().len() - 1 {
                    lemma_pref_lookup_some(mid, self.entry_seq()[j].module@, self.entry_seq()[j].scope@);
                }
            }
        }
    }

    /// Take the outstanding dialog under the key out of the table, if any.
    pub fn take(&mut self, module: &String, scope: &DiagType) -> (r: Option<(String, Option<
        String,
    >)>)
        requires
            old(self).wf(),
        ensures
            final(self).wf(),
            match old(self).lookup(module@, scope@) {
                Some(e) => r == Some((e.frontend, e.correlation)),
                None => r is None,
            },
            final(self).lookup(module@, scope@) is None,
            old(self).lookup(module@, scope@) is None ==> *final(self) == *old(self),
            forall|m: Seq<char>, d: Option<Seq<char>>|
                !(m == module@ && d == scope@) ==> final(self).lookup(m, d) == old(self).lookup(
                    m,
                    d,
                ),
    {
        let ghost pre = self.entry_seq();
        match self.index_of(module, scope) {
            Some(i) => {
                let e = self.entries.remove(i);
                proof {
                    lemma_pref_remove_distinct(pre, i as int);
                    assert forall|m: Seq<char>, d: Option<Seq<char>>|
                        !(m == module@ && d == scope@) implies pref_lookup(
                        self.entry_seq(),
                        m,
                        d,
                    ) == pref_lookup(pre, m, d) by {
                        lemma_pref_lookup_remove(pre, i as int, m, d);
                    }
                    lemma_pref_none_after_remove(pre, i as int, module@, scope@, self.entry_seq());
                }
                Some((e.frontend, e.correlation))
            },
            None => None,
        }
    }
}

proof fn lemma_pref_remove_distinct(s: Seq<PrefEntry>, i: int)
    requires
        0 <= i < s.len(),
        forall|a: int, b: int|
            0 <= a < b < s.len() ==> !(s[a].module@ == s[b].module@ && s[a].scope@
                == s[b].scope@),
    ensures
        forall|a: int, b: int|
            0 <= a < b < s.remove(i).len() ==> !(s.remove(i)[a].module@ == s.remove(
                i,
            )[b].module@ && s.remove(i)[a].scope@ == s.remove(i)[b].scope@),
{
    let t = s.remove(i);
    assert forall|a: int, b: int|
        0 <= a < b < t.len() implies !(t[a].module@ == t[b].module@ && t[a].scope@
        == t[b].scope@) by {
        let a0 = if a < i {
            a
        } else {
            a + 1
        };
        let b0 = if b < i {
            b
        } else {
            b + 1
        };
        assert(t[a] == s[a0] && t[b] == s[b0]);
    }
}

proof fn lemma_pref_none_after_remove(
    s: Seq<PrefEntry>,
    i: int,
    m: Seq<char>,
    d: Option<Seq<char>>,
    t: Seq<PrefEntry>,
)
    requires
        0 <= i < s.len(),
        s[i].module@ == m,
        s[i].scope@ == d,
        forall|a: int, b: int|
            0 <= a < b < s.len() ==> !(s[a].module@ == s[b].module@ && s[a].scope@
                == s[b].scope@),
        t == s.remove(i),
    ensures
        pref_lookup(t, m, d) is None,
{
    lemma_pref_lookup_some(t, m, d);
    if pref_lookup(t, m, d) is Some {
        let k = choose|k: int| 0 <= k < t.len() && t[k].module@ == m && t[k].scope@ == d;
        let k0 = if k < i {
            k
        } else {
            k + 1
        };
        assert(t[k] == s[k0]);
    }
}

proof fn lemma_pref_first_match(s: Seq<PrefEntry>, i: int, m: Seq<char>, d: Option<Seq<char>>)
    requires
        0 <= i < s.len(),
        s[i].module@ == m,
        s[i].scope@ == d,
        forall|j: int| 0 <= j < i ==> !((#[trigger] s[j]).module@ == m && s[j].scope@ == d),
    ensures
        pref_lookup(s, m, d) == Some(s[i]),
    decreases i,
{
    if i == 0 {
    } else {
        assert(s.drop_first()[i - 1].module@ == m && s.drop_first()[i - 1].scope@ == d);
        assert(forall|j: int| 0 <= j < i - 1 ==> s.drop_first()[j] == s[j + 1]);
        lemma_pref_first_match(s.drop_first(), i - 1, m, d);
    }
}

} // verus!
