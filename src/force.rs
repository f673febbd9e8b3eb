use vstd::prelude::*;

verus! {

/// A tunable setting of a force: a number with the inclusive range it may
/// take, or a switch.
#[derive(Copy, Clone, Debug)]
pub enum Value<T> {
    Number { value: T, min: T, max: T },
    Bool(bool),
}

impl<T: Copy> Value<T> {
    /// The switch's state; `None` for a number.
    pub fn bool(&self) -> (r: Option<bool>)
        ensures
            r == match *self {
                Value::Bool(b) => Some(b),
                Value::Number { .. } => None::<bool>,
            },
    {
        match self {
            Value::Bool(b) => Some(*b),
            Value::Number { .. } => None,
        }
    }

    /// The number's current value; `None` for a switch.
    pub fn number(&self) -> (r: Option<T>)
        ensures
            r == match *self {
                Value::Number { value, .. } => Some(value),
                Value::Bool(_) => None::<T>,
            },
    {
        match self {
            Value::Number { value, .. } => Some(*value),
            Value::Bool(_) => None,
        }
    }

    /// The number's inclusive range; `None` for a switch.
    pub fn range(&self) -> (r: Option<(T, T)>)
        ensures
            r == match *self {
                Value::Number { min, max, .. } => Some((min, max)),
                Value::Bool(_) => None::<(T, T)>,
            },
    {
        match self {
            Value::Number { min, max, .. } => Some((*min, *max)),
            Value::Bool(_) => None,
        }
    }
}

impl<T: Copy> Value<T> {
    /// Sets the number, keeping its range. Returns `false`, with nothing
    /// changed, for a switch.
    pub fn set_number(&mut self, n: T) -> (r: bool)
        ensures
            r == (*old(self) is Number),
            *final(self) == with_number(*old(self), n),
    {
        match self {
            Value::Number { value, .. } => {
                *value = n;
                true
            },
            Value::Bool(_) => false,
        }
    }

    /// Sets the switch. Returns `false`, with nothing changed, for a number.
    pub fn set_bool(&mut self, b: bool) -> (r: bool)
        ensures
            r == (*old(self) is Bool),
            *final(self) == with_bool(*old(self), b),
    {
        match self {
            Value::Bool(x) => {
                *x = b;
                true
            },
            Value::Number { .. } => false,
        }
    }
}

/// `v` with its number, or its switch, set to the new state; a setting of the
/// other kind is left as it is.
pub open spec fn with_number<T>(v: Value<T>, n: T) -> Value<T> {
    match v {
        Value::Number { min, max, .. } => Value::Number { value: n, min, max },
        Value::Bool(b) => Value::Bool(b),
    }
}

pub open spec fn with_bool<T>(v: Value<T>, b: bool) -> Value<T> {
    match v {
        Value::Bool(_) => Value::Bool(b),
        other => other,
    }
}

/// The ordered settings of a force, each under a label of its own.
#[derive(Clone, Debug)]
pub struct Dictionary<T> {
    entries: Vec<(String, Value<T>)>,
}

impl<T: Copy> Dictionary<T> {
    /// The entries in order: each label with its setting.
    pub closed spec fn entries_view(&self) -> Seq<(String, Value<T>)> {
        self.entries@
    }

    /// The label of entry `k`.
    pub open spec fn label(&self, k: int) -> Seq<char> {
        self.entries_view()[k].0@
    }

    /// Whether some entry carries `label`.
    pub open spec fn has_label(&self, label: Seq<char>) -> bool {
        exists|k: int| 0 <= k < self.entries_view().len() && #[trigger] self.label(k) == label
    }

    /// No two entries share a label.
    pub open spec fn wf(&self) -> bool {
        forall|a: int, b: int|
            0 <= a < b < self.entries_view().len() ==> #[trigger] self.label(a) != #[trigger] self.label(b)
    }

    /// A dictionary with no entries.
    pub fn new() -> (r: Self)
        ensures
            r.wf(),
            r.entries_view() == Seq::<(String, Value<T>)>::empty(),
    {
        Dictionary { entries: Vec::new() }
    }

    /// Number of entries.
    pub fn len(&self) -> (r: usize)
        ensures
            r == self.entries_view().len(),
    {
        self.entries.len()
    }

    /// Where the entry labelled `label` stands, if there is one.
    pub fn position(&self, label: &str) -> (r: Option<usize>)
        ensures
            r is Some <==> self.has_label(label@),
            r is Some ==> r->0 < self.entries_view().len() && self.label(r->0 as int) == label@,
            r is Some ==> forall|j: int| 0 <= j < r->0 ==> #[trigger] self.label(j) != label@,
    {
        let key = label.to_owned();
        let mut k: usize = 0;
        while k < self.entries.len()
            invariant
                key@ == label@,
                k <= self.entries@.len(),
                forall|j: int| 0 <= j < k ==> #[trigger] self.label(j) != label@,
            decreases self.entries@.len() - k,
        {
            if self.entries[k].0 == key {
                assert(self.label(k as int) == label@);
                return Some(k);
            }
            k += 1;
        }
        None
    }

    /// The setting under `label`, if there is one.
    pub fn get(&self, label: &str) -> (r: Option<&Value<T>>)
        requires
            self.wf(),
        ensures
            r is Some <==> self.has_label(label@),
            forall|k: int|
                0 <= k < self.entries_view().len() && #[trigger] self.label(k) == label@ ==> r is Some
                    && *r->0 == self.entries_view()[k].1,
    {
        match self.position(label) {
            Some(k) => Some(&self.entries[k].1),
            None => None,
        }
    }

    /// Label and setting of entry `k`, for walking the entries in order.
    pub fn entry(&self, k: usize) -> (r: (&str, &Value<T>))
        requires
            k < self.entries_view().len(),
        ensures
            r.0@ == self.label(k as int),
            *r.1 == self.entries_view()[k as int].1,
    {
        let e = &self.entries[k];
        (e.0.as_str(), &e.1)
    }

    /// Adds `value` under `label` at the end, or, when the label is already
    /// there, replaces its setting in place and returns the one it had.
    pub fn insert(&mut self, label: String, value: Value<T>) -> (r: Option<Value<T>>)
        requires
            old(self).wf(),
        ensures
            final(self).wf(),
            r is Some <==> old(self).has_label(label@),
            forall|k: int|
                0 <= k < old(self).entries_view().len() && #[trigger] old(self).label(k) == label@
                    ==> r == Some(old(self).entries_view()[k].1) && final(self).entries_view()
                    == old(self).entries_view().update(k, (old(self).entries_view()[k].0, value)),
            r is None ==> final(self).entries_view() == old(self).entries_view().push((label, value)),
    {
        match self.position(label.as_str()) {
            Some(k) => {
                let prev = self.entries[k].1;
                let ghost key = self.entries@[k as int].0;
                self.entries[k].1 = value;
                assert(self.entries@ =~= old(self).entries@.update(k as int, (key, value)));
                assert(forall|j: int| 0 <= j < self.entries@.len() ==> #[trigger] self.label(j) == old(self).label(j));
                Some(prev)
            },
            None => {
                self.entries.push((label, value));
                assert(forall|j: int| 0 <= j < old(self).entries@.len() ==> #[trigger] self.label(j) == old(self).label(j));
                None
            },
        }
    }

    /// Sets the number under `label`, keeping its range. Returns `false`, with
    /// nothing changed, when there is no such entry or it is a switch.
    pub fn set_number(&mut self, label: &str, n: T) -> (r: bool)
        requires
            old(self).wf(),
        ensures
            final(self).wf(),
            !r ==> final(self).entries_view() == old(self).entries_view(),
            forall|k: int|
                0 <= k < old(self).entries_view().len() && #[trigger] old(self).label(k) == label@
                    ==> (r <==> old(self).entries_view()[k].1 is Number) && final(self).entries_view()
                    == old(self).entries_view().update(
                    k,
                    (old(self).entries_view()[k].0, with_number(old(self).entries_view()[k].1, n)),
                ),
            !old(self).has_label(label@) ==> !r,
    {
        match self.position(label) {
            Some(k) => {
                match self.entries[k].1 {
                    Value::Number { value, min, max } => {
                        let ghost key = self.entries@[k as int].0;
                        self.entries[k].1 = Value::Number { value: n, min, max };
                        assert(self.entries@ =~= old(self).entries@.update(
                            k as int,
                            (key, with_number(old(self).entries@[k as int].1, n)),
                        ));
                        assert(forall|j: int| 0 <= j < self.entries@.len() ==> #[trigger] self.label(j) == old(self).label(j));
                        true
                    },
                    Value::Bool(_) => {
                        assert(self.entries@ =~= old(self).entries@.update(
                            k as int,
                            (self.entries@[k as int].0, with_number(old(self).entries@[k as int].1, n)),
                        ));
                        false
                    },
                }
            },
            None => false,
        }
    }

    /// Sets the switch under `label`. Returns `false`, with nothing changed,
    /// when there is no such entry or it is a number.
    pub fn set_bool(&mut self, label: &str, b: bool) -> (r: bool)
        requires
            old(self).wf(),
        ensures
            final(self).wf(),
            !r ==> final(self).entries_view() == old(self).entries_view(),
            forall|k: int|
                0 <= k < old(self).entries_view().len() && #[trigger] old(self).label(k) == label@
                    ==> (r <==> old(self).entries_view()[k].1 is Bool) && final(self).entries_view()
                    == old(self).entries_view().update(
                    k,
                    (old(self).entries_view()[k].0, with_bool(old(self).entries_view()[k].1, b)),
                ),
            !old(self).has_label(label@) ==> !r,
    {
        match self.position(label) {
            Some(k) => {
                match self.entries[k].1 {
                    Value::Bool(_) => {
                        let ghost key = self.entries@[k as int].0;
                        self.entries[k].1 = Value::Bool(b);
                        assert(self.entries@ =~= old(self).entries@.update(
                            k as int,
                            (key, with_bool(old(self).entries@[k as int].1, b)),
                        ));
                        assert(forall|j: int| 0 <= j < self.entries@.len() ==> #[trigger] self.label(j) == old(self).label(j));
                        true
                    },
                    Value::Number { .. } => {
                        assert(self.entries@ =~= old(self).entries@.update(
                            k as int,
                            (self.entries@[k as int].0, with_bool(old(self).entries@[k as int].1, b)),
                        ));
                        false
                    },
                }
            },
            None => false,
        }
    }

    /// An entry-for-entry copy.
    pub fn duplicate(&self) -> (r: Self)
        requires
            self.wf(),
        ensures
            r.wf(),
            r.entries_view().len() == self.entries_view().len(),
            forall|k: int|
                0 <= k < self.entries_view().len() ==> #[trigger] r.label(k) == self.label(k)
                    && r.entries_view()[k].1 == self.entries_view()[k].1,
    {
        let mut entries: Vec<(String, Value<T>)> = Vec::new();
        let mut k: usize = 0;
        while k < self.entries.len()
            invariant
                k <= self.entries@.len(),
                entries@.len() == k,
                forall|j: int|
                    0 <= j < k ==> #[trigger] entries@[j].0@ == self.label(j) && entries@[j].1
                        == self.entries@[j].1,
            decreases self.entries@.len() - k,
        {
            let e = &self.entries[k];
            entries.push((e.0.clone(), e.1));
            k += 1;
        }
        let r = Dictionary { entries };
        assert(forall|j: int| 0 <= j < k ==> #[trigger] r.label(j) == self.label(j));
        r
    }
}

/// Which rule a force applies to the layout.
#[derive(Copy, Clone, Debug, PartialEq, Eq, Structural)]
pub enum ForceKind {
    FruchtermanReingold,
    WeightedFruchtermanReingold,
    Handy,
    Scale,
    Translate,
    Center,
}

/// A named rule for moving the nodes, with its live-tunable settings and the
/// settings it started with.
#[derive(Clone, Debug)]
pub struct Force<T> {
    dict: Dictionary<T>,
    dict_default: Dictionary<T>,
    name: String,
    continuous: bool,
    info: Option<String>,
    kind: ForceKind,
}

/// Two dictionaries with the same labels and settings in the same order.
pub open spec fn same_entries<T: Copy>(a: Dictionary<T>, b: Dictionary<T>) -> bool {
    &&& a.entries_view().len() == b.entries_view().len()
    &&& forall|k: int|
        0 <= k < a.entries_view().len() ==> #[trigger] a.label(k) == b.label(k)
            && a.entries_view()[k].1 == b.entries_view()[k].1
}

impl<T: Copy> Force<T> {
    pub closed spec fn spec_info(&self) -> Option<Seq<char>> {
        match self.info {
            Some(s) => Some(s@),
            None => None,
        }
    }

    pub closed spec fn spec_continuous(&self) -> bool {
        self.continuous
    }

    pub closed spec fn spec_kind(&self) -> ForceKind {
        self.kind
    }

    /// The settings as they are now.
    pub closed spec fn spec_dict(&self) -> Dictionary<T> {
        self.dict
    }

    /// The settings the force was made with.
    pub closed spec fn spec_dict_default(&self) -> Dictionary<T> {
        self.dict_default
    }

    pub open spec fn wf(&self) -> bool {
        self.spec_dict().wf() && self.spec_dict_default().wf()
    }

    /// A force of the given kind whose settings start as `dict`; `reset`
    /// brings them back to that.
    pub fn new(kind: ForceKind, name: String, info: Option<String>, continuous: bool, dict: Dictionary<T>) -> (r: Self)
        requires
            dict.wf(),
        ensures
            r.wf(),
            r.spec_kind() == kind,
            r.spec_name() == name@,
            r.spec_info() == (match info {
                Some(s) => Some(s@),
                None => None::<Seq<char>>,
            }),
            r.spec_continuous() == continuous,
            r.spec_dict() == dict,
            same_entries(r.spec_dict_default(), dict),
    {
        let dict_default = dict.duplicate();
        Force { dict, dict_default, name, continuous, info, kind }
    }

    /// The force's name.
    pub fn name(&self) -> (r: &str)
        ensures
            r@ == self.spec_name(),
    {
        self.name.as_str()
    }

    /// A description of the force, if it has one.
    pub fn info(&self) -> (r: Option<&str>)
        ensures
            r is Some <==> self.spec_info() is Some,
            r is Some ==> r->0@ == self.spec_info()->0,
    {
        match &self.info {
            Some(s) => Some(s.as_str()),
            None => None,
        }
    }

    /// Whether the force runs on every tick (`true`) or only when asked for
    /// once (`false`).
    pub fn continuous(&self) -> (r: bool)
        ensures
            r == self.spec_continuous(),
    {
        self.continuous
    }

    /// Which rule the force applies.
    pub fn kind(&self) -> (r: ForceKind)
        ensures
            r == self.spec_kind(),
    {
        self.kind
    }

    /// The current settings.
    pub fn dict(&self) -> (r: &Dictionary<T>)
        ensures
            *r == self.spec_dict(),
    {
        &self.dict
    }

    /// The current settings, for changing them in place.
    pub fn dict_mut(&mut self) -> (r: &mut Dictionary<T>)
        ensures
            *r == old(self).spec_dict(),
            final(self).spec_dict() == *final(r),
            final(self).spec_dict_default() == old(self).spec_dict_default(),
            final(self).spec_name() == old(self).spec_name(),
            final(self).spec_info() == old(self).spec_info(),
            final(self).spec_continuous() == old(self).spec_continuous(),
            final(self).spec_kind() == old(self).spec_kind(),
    {
        &mut self.dict
    }

    /// Brings the settings back to those the force was made with.
    pub fn reset(&mut self)
        requires
            old(self).wf(),
        ensures
            final(self).wf(),
            same_entries(final(self).spec_dict(), old(self).spec_dict_default()),
            final(self).spec_dict_default() == old(self).spec_dict_default(),
            final(self).spec_name() == old(self).spec_name(),
            final(self).spec_info() == old(self).spec_info(),
            final(self).spec_continuous() == old(self).spec_continuous(),
            final(self).spec_kind() == old(self).spec_kind(),
    {
        self.dict = self.dict_default.duplicate();
    }
}

/// Forces are told apart by name alone.
impl<T> PartialEq for Force<T> {
    fn eq(&self, other: &Force<T>) -> (r: bool) {
        self.name == other.name
    }
}

impl<T> vstd::std_specs::cmp::PartialEqSpecImpl for Force<T> {
    open spec fn obeys_eq_spec() -> bool {
        true
    }

    open spec fn eq_spec(&self, other: &Force<T>) -> bool {
        self.spec_name() == other.spec_name()
    }
}

impl<T> Force<T> {
    pub closed spec fn spec_name(&self) -> Seq<char> {
        self.name@
    }
}

/// The one-shot force that moves the whole layout so that the mean of the
/// node positions is the origin. It has no settings.
#[derive(Copy, Clone, Debug, PartialEq, Eq, Structural)]
pub struct Center;

impl Center {
    /// The centering force, run only when asked for.
    pub fn force<T: Copy>(self) -> (r: Force<T>)
        ensures
            r.wf(),
            r.spec_kind() == ForceKind::Center,
            r.spec_name() == "Center"@,
            r.spec_info() == Some("Moves the layout so that its mean position is the origin."@),
            !r.spec_continuous(),
            r.spec_dict().entries_view().len() == 0,
            r.spec_dict_default().entries_view().len() == 0,
    {
        proof {
            reveal_strlit("Center");
            reveal_strlit("Moves the layout so that its mean position is the origin.");
        }
        Force::new(
            ForceKind::Center,
            "Center".to_owned(),
            Some("Moves the layout so that its mean position is the origin.".to_owned()),
            false,
            Dictionary::new(),
        )
    }
}

} // verus!
