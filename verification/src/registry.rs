//! Driver registry: maps a config's `driver = "..."` to the constructor that
//! builds the driver. One agent binary runs whichever driver the config
//! names; a new machine type is a new registered constructor, never a new
//! agent binary.

use vstd::prelude::*;

use crate::config::{spec_default_driver, AgentConfig};
use crate::order::{
    seq_lt, str_eq, str_lt, lemma_seq_lt_irreflexive, lemma_seq_lt_total, lemma_seq_lt_transitive,
    lemma_seq_lt_asymmetric,
};

verus! {

/// The kind under which the Howick FRAMA driver registers.
pub open spec fn spec_howick_frama_kind() -> Seq<char> {
    "howick-frama"@
}

/// No two entries share a kind.
pub open spec fn distinct_kinds<C>(s: Seq<(&'static str, C)>) -> bool {
    forall|i: int, j: int|
        0 <= i < s.len() && 0 <= j < s.len() && i != j ==> #[trigger] s[i].0@ != #[trigger] s[j].0@
}

/// Some entry has kind `k`.
pub open spec fn has_kind<C>(s: Seq<(&'static str, C)>, k: Seq<char>) -> bool {
    exists|i: int| 0 <= i < s.len() && #[trigger] s[i].0@ == k
}

/// The map from kinds to constructors that a list of entries stands for.
pub open spec fn table_of<C>(s: Seq<(&'static str, C)>) -> Map<Seq<char>, C> {
    Map::new(
        |k: Seq<char>| has_kind(s, k),
        |k: Seq<char>| s[choose|i: int| 0 <= i < s.len() && #[trigger] s[i].0@ == k].1,
    )
}

/// The entry at `i` is the one the table gives for its kind.
proof fn lemma_table_at<C>(s: Seq<(&'static str, C)>, i: int)
    requires
        distinct_kinds(s),
        0 <= i < s.len(),
    ensures
        table_of(s).dom().contains(s[i].0@),
        table_of(s)[s[i].0@] == s[i].1,
{
    let k = s[i].0@;
    assert(has_kind(s, k));
    let j = choose|j: int| 0 <= j < s.len() && #[trigger] s[j].0@ == k;
    assert(j == i);
}

/// Replacing an entry by one of the same kind replaces that kind's constructor.
proof fn lemma_table_update<C>(s: Seq<(&'static str, C)>, i: int, e: (&'static str, C))
    requires
        distinct_kinds(s),
        0 <= i < s.len(),
        e.0@ == s[i].0@,
    ensures
        distinct_kinds(s.update(i, e)),
        table_of(s.update(i, e)) =~= table_of(s).insert(e.0@, e.1),
{
    let t = s.update(i, e);
    assert(distinct_kinds(t)) by {
        assert forall|a: int, b: int|
            0 <= a < t.len() && 0 <= b < t.len() && a != b implies #[trigger] t[a].0@ != #[trigger] t[b].0@ by {
            assert(s[a].0@ != s[b].0@);
        }
    }
    assert forall|k: Seq<char>| #[trigger] has_kind(t, k) == (has_kind(s, k) || k == e.0@) by {
        if has_kind(s, k) {
            let j = choose|j: int| 0 <= j < s.len() && #[trigger] s[j].0@ == k;
            assert(t[j].0@ == k);
        }
        if has_kind(t, k) {
            let j = choose|j: int| 0 <= j < t.len() && #[trigger] t[j].0@ == k;
            if j != i {
                assert(s[j].0@ == k);
            }
        }
        if k == e.0@ {
            assert(t[i].0@ == k);
        }
    }
    assert forall|k: Seq<char>| #[trigger] table_of(t).dom().contains(k) implies table_of(t)[k]
        == table_of(s).insert(e.0@, e.1)[k] by {
        let j = choose|j: int| 0 <= j < t.len() && #[trigger] t[j].0@ == k;
        lemma_table_at(t, j);
        if j != i {
            lemma_table_at(s, j);
        }
    }
}

/// Appending an entry of a new kind adds that kind.
proof fn lemma_table_push<C>(s: Seq<(&'static str, C)>, e: (&'static str, C))
    requires
        distinct_kinds(s),
        !has_kind(s, e.0@),
    ensures
        distinct_kinds(s.push(e)),
        table_of(s.push(e)) =~= table_of(s).insert(e.0@, e.1),
{
    let t = s.push(e);
    assert(distinct_kinds(t)) by {
        assert forall|a: int, b: int|
            0 <= a < t.len() && 0 <= b < t.len() && a != b implies #[trigger] t[a].0@ != #[trigger] t[b].0@ by {
            if a == s.len() {
                assert(s[b].0@ == t[b].0@);
            } else if b == s.len() {
                assert(s[a].0@ == t[a].0@);
            } else {
                assert(s[a].0@ != s[b].0@);
            }
        }
    }
    assert forall|k: Seq<char>| #[trigger] has_kind(t, k) == (has_kind(s, k) || k == e.0@) by {
        if has_kind(s, k) {
            let j = choose|j: int| 0 <= j < s.len() && #[trigger] s[j].0@ == k;
            assert(t[j].0@ == k);
        }
        if has_kind(t, k) {
            let j = choose|j: int| 0 <= j < t.len() && #[trigger] t[j].0@ == k;
            if j < s.len() {
                assert(s[j].0@ == k);
            }
        }
        if k == e.0@ {
            assert(t[s.len() as int].0@ == k);
        }
    }
    assert forall|k: Seq<char>| #[trigger] table_of(t).dom().contains(k) implies table_of(t)[k]
        == table_of(s).insert(e.0@, e.1)[k] by {
        let j = choose|j: int| 0 <= j < t.len() && #[trigger] t[j].0@ == k;
        lemma_table_at(t, j);
        if j < s.len() {
            lemma_table_at(s, j);
        }
    }
}

/// Why a driver could not be built.
pub enum BuildError<E> {
    /// No constructor is registered for the kind the configuration names.
    UnknownKind(String),
    /// The registered constructor refused the configuration.
    Constructor(E),
}

/// The message of an unknown driver kind.
pub open spec fn spec_no_driver_message(kind: Seq<char>) -> Seq<char> {
    "no driver registered for kind '"@ + kind + "'"@
}

/// The message for a configuration that names a kind nobody registered.
pub fn no_driver_message(kind: &str) -> (m: String)
    ensures
        m@ == spec_no_driver_message(kind@),
{
    let mut m = "no driver registered for kind '".to_owned();
    m.append(kind);
    m.append("'");
    m
}

/// The text that `{:?}` gives for a list of driver kinds.
pub uninterp spec fn debug_listing(kinds: Seq<Seq<char>>) -> Seq<char>;

/// Formats a list of kinds with `Debug` (`format!("{:?}", kinds)`, the
/// `Debug` impl of `Vec<&str>`). The contract names the text by the kinds'
/// characters alone.
#[verifier::external_body]
fn debug_text(kinds: &Vec<&'static str>) -> (t: String)
    ensures
        t@ == debug_listing(kinds@.map_values(|k: &'static str| k@)),
{
    format!("{:?}", kinds)
}

/// The message of a refused configuration: why it was refused, then the
/// kinds this agent supports.
pub open spec fn spec_refusal_message(reason: Seq<char>, kinds: Seq<Seq<char>>) -> Seq<char> {
    reason + " (this agent supports: "@ + debug_listing(kinds) + ")"@
}

/// The message for a configuration whose driver could not be built: `reason`
/// followed by the supported kinds, as `{:?}` lists them.
pub fn refusal_message(reason: &str, kinds: &Vec<&'static str>) -> (m: String)
    ensures
        m@ == spec_refusal_message(reason@, kinds@.map_values(|k: &'static str| k@)),
{
    let mut m = reason.to_owned();
    m.append(" (this agent supports: ");
    let listing = debug_text(kinds);
    m.append(listing.as_str());
    m.append(")");
    m
}

/// Registry of the drivers this agent was built to support, each kind with
/// the constructor that builds its driver from the agent's configuration.
pub struct DriverRegistry<C> {
    constructors: Vec<(&'static str, C)>,
}

impl<C> DriverRegistry<C> {
    #[verifier::type_invariant]
    spec fn kinds_are_distinct(self) -> bool {
        distinct_kinds(self.constructors@)
    }
}

impl<C> View for DriverRegistry<C> {
    type V = Map<Seq<char>, C>;

    /// Each registered kind with its constructor.
    closed spec fn view(&self) -> Map<Seq<char>, C> {
        table_of(self.constructors@)
    }
}

impl<C> DriverRegistry<C> {
    /// A registry with every driver compiled into this agent: the Howick
    /// FRAMA driver, built by `howick_frama`.
    pub fn with_builtin_drivers(howick_frama: C) -> (r: Self)
        ensures
            r@ == Map::<Seq<char>, C>::empty().insert(spec_howick_frama_kind(), howick_frama),
    {
        let mut r = DriverRegistry { constructors: Vec::new() };
        proof {
            assert(table_of(r.constructors@) =~= Map::<Seq<char>, C>::empty());
        }
        r.register("howick-frama", howick_frama);
        r
    }

    /// Registers `ctor` under `kind`, replacing the constructor registered
    /// under that kind before, if any.
    pub fn register(&mut self, kind: &'static str, ctor: C)
        ensures
            final(self)@ == old(self)@.insert(kind@, ctor),
    {
        proof {
            use_type_invariant(&*self);
        }
        let mut entries: Vec<(&'static str, C)> = Vec::new();
        std::mem::swap(&mut entries, &mut self.constructors);
        let ghost before = entries@;
        match find_kind(&entries, kind) {
            Some(i) => {
                entries[i] = (kind, ctor);
                proof {
                    lemma_table_update(before, i as int, (kind, ctor));
                }
            },
            None => {
                entries.push((kind, ctor));
                proof {
                    lemma_table_push(before, (kind, ctor));
                }
            },
        }
        self.constructors = entries;
    }

    /// Instantiates the driver named in the config with the constructor
    /// registered for its kind; an error when no constructor is registered
    /// for it, or when the constructor refuses the configuration.
    pub fn build<D, E>(&self, config: &AgentConfig) -> (r: Result<D, BuildError<E>>)
        where
            C: Fn(&AgentConfig) -> Result<D, E>,
        requires
            self@.dom().contains(config.driver@) ==> call_requires(self@[config.driver@], (config,)),
        ensures
            !self@.dom().contains(config.driver@) ==> (r matches Err(BuildError::UnknownKind(k))
                && k@ == config.driver@),
            self@.dom().contains(config.driver@) ==> match r {
                Ok(d) => call_ensures(self@[config.driver@], (config,), Ok(d)),
                Err(BuildError::Constructor(e)) => call_ensures(self@[config.driver@], (config,), Err(e)),
                Err(BuildError::UnknownKind(_)) => false,
            },
    {
        proof {
            use_type_invariant(self);
        }
        match find_kind(&self.constructors, config.driver.as_str()) {
            Some(i) => {
                proof {
                    lemma_table_at(self.constructors@, i as int);
                }
                let ctor = &self.constructors[i].1;
                match ctor(config) {
                    Ok(d) => Ok(d),
                    Err(e) => Err(BuildError::Constructor(e)),
                }
            },
            None => Err(BuildError::UnknownKind(config.driver.clone())),
        }
    }
}

/// Each kind comes strictly before the next: the list is sorted and holds
/// no kind twice.
pub open spec fn sorted_kinds(s: Seq<&'static str>) -> bool {
    forall|i: int, j: int| 0 <= i < j < s.len() ==> seq_lt(#[trigger] s[i]@, #[trigger] s[j]@)
}

/// Some element of the list is `k`.
pub open spec fn lists_kind(s: Seq<&'static str>, k: Seq<char>) -> bool {
    exists|i: int| 0 <= i < s.len() && #[trigger] s[i]@ == k
}

/// Where `x` goes into the sorted list `r`: after everything that comes
/// before it.
fn insertion_point(r: &Vec<&'static str>, x: &str) -> (p: usize)
    ensures
        p <= r@.len(),
        forall|q: int| 0 <= q < p ==> !seq_lt(x@, #[trigger] r@[q]@),
        p < r@.len() ==> seq_lt(x@, r@[p as int]@),
{
    let n = r.len();
    let mut p: usize = 0;
    while p < n
        invariant
            p <= n,
            n == r@.len(),
            forall|q: int| 0 <= q < p ==> !seq_lt(x@, #[trigger] r@[q]@),
        decreases n - p,
    {
        if str_lt(x, r[p]) {
            return p;
        }
        p = p + 1;
    }
    p
}

/// Putting a new kind at its insertion point keeps the list sorted.
proof fn lemma_insert_sorted(r: Seq<&'static str>, p: int, x: &'static str)
    requires
        sorted_kinds(r),
        0 <= p <= r.len(),
        forall|q: int| 0 <= q < p ==> !seq_lt(x@, #[trigger] r[q]@),
        p < r.len() ==> seq_lt(x@, r[p]@),
        !lists_kind(r, x@),
    ensures
        sorted_kinds(r.insert(p, x)),
{
    let t = r.insert(p, x);
    assert forall|a: int, b: int| 0 <= a < b < t.len() implies seq_lt(#[trigger] t[a]@, #[trigger] t[b]@) by {
        if a < p && b == p {
            assert(r[a]@ != x@);
            lemma_seq_lt_total(x@, r[a]@);
        } else if a == p {
            assert(t[b] == r[b - 1]);
            if b - 1 > p {
                lemma_seq_lt_transitive(x@, r[p]@, r[b - 1]@);
            }
        } else if b > p {
            assert(t[b] == r[b - 1]);
            if a < b - 1 {
                assert(seq_lt(r[a]@, r[b - 1]@));
            }
        }
    }
}

impl<C> DriverRegistry<C> {
    /// Every registered kind, each once, in ascending order.
    pub fn supported_kinds(&self) -> (r: Vec<&'static str>)
        ensures
            sorted_kinds(r@),
            forall|k: Seq<char>| lists_kind(r@, k) <==> self@.dom().contains(k),
    {
        proof {
            use_type_invariant(self);
        }
        let n = self.constructors.len();
        let mut r: Vec<&'static str> = Vec::new();
        let mut i: usize = 0;
        while i < n
            invariant
                i <= n,
                n == self.constructors@.len(),
                distinct_kinds(self.constructors@),
                sorted_kinds(r@),
                forall|k: Seq<char>| lists_kind(r@, k) <==> exists|j: int| 0 <= j < i && #[trigger] self.constructors@[j].0@ == k,
            decreases n - i,
        {
            let kind = self.constructors[i].0;
            let p = insertion_point(&r, kind);
            proof {
                if lists_kind(r@, kind@) {
                    let j = choose|j: int| 0 <= j < i && #[trigger] self.constructors@[j].0@ == kind@;
                    assert(self.constructors@[j].0@ != self.constructors@[i as int].0@);
                }
                lemma_insert_sorted(r@, p as int, kind);
            }
            let ghost before = r@;
            r.insert(p, kind);
            proof {
                assert forall|k: Seq<char>| lists_kind(r@, k) <==> exists|j: int| 0 <= j < i + 1 && #[trigger] self.constructors@[j].0@ == k by {
                    if lists_kind(r@, k) {
                        let q = choose|q: int| 0 <= q < r@.len() && #[trigger] r@[q]@ == k;
                        if q < p {
                            assert(before[q]@ == k);
                            assert(lists_kind(before, k));
                        } else if q > p {
                            assert(before[q - 1]@ == k);
                            assert(lists_kind(before, k));
                        } else {
                            assert(self.constructors@[i as int].0@ == k);
                        }
                    }
                    if exists|j: int| 0 <= j < i + 1 && #[trigger] self.constructors@[j].0@ == k {
                        let j = choose|j: int| 0 <= j < i + 1 && #[trigger] self.constructors@[j].0@ == k;
                        if j == i {
                            assert(r@[p as int]@ == k);
                        } else {
                            assert(lists_kind(before, k));
                            let q = choose|q: int| 0 <= q < before.len() && #[trigger] before[q]@ == k;
                            if q < p {
                                assert(r@[q]@ == k);
                            } else {
                                assert(r@[q + 1]@ == k);
                            }
                        }
                    }
                }
            }
            i = i + 1;
        }
        proof {
            assert forall|k: Seq<char>| lists_kind(r@, k) <==> self@.dom().contains(k) by {
                if exists|j: int| 0 <= j < n && #[trigger] self.constructors@[j].0@ == k {
                    let j = choose|j: int| 0 <= j < n && #[trigger] self.constructors@[j].0@ == k;
                    assert(has_kind(self.constructors@, k));
                }
                if has_kind(self.constructors@, k) {
                    let j = choose|j: int| 0 <= j < self.constructors@.len() && #[trigger] self.constructors@[j].0@ == k;
                    assert(exists|j: int| 0 <= j < n && #[trigger] self.constructors@[j].0@ == k);
                }
            }
        }
        r
    }
}

/// After `register(kind, ctor)` (which turns `before` into `after`), a
/// configuration whose driver is `kind` is built with `ctor`: `build` hands
/// it to `ctor` and returns what `ctor` returns. Every other kind keeps its
/// constructor, or stays unknown.
pub proof fn law_register_then_build<C>(
    before: DriverRegistry<C>,
    after: DriverRegistry<C>,
    kind: Seq<char>,
    ctor: C,
    config: AgentConfig,
    other: Seq<char>,
)
    requires
        after@ == before@.insert(kind, ctor),
        config.driver@ == kind,
        other != kind,
    ensures
        after@.dom().contains(config.driver@),
        after@[config.driver@] == ctor,
        after@.dom().contains(other) == before@.dom().contains(other),
        before@.dom().contains(other) ==> after@[other] == before@[other],
{
}

/// Registering a kind again (turning `before` into `after`) replaces its
/// constructor and leaves the supported kinds as they were.
pub proof fn law_reregister_keeps_kinds<C>(before: DriverRegistry<C>, after: DriverRegistry<C>, kind: Seq<char>, ctor: C)
    requires
        before@.dom().contains(kind),
        after@ == before@.insert(kind, ctor),
    ensures
        after@.dom() == before@.dom(),
        after@[kind] == ctor,
{
    assert(before@.insert(kind, ctor).dom() =~= before@.dom());
}

/// The built-in registry builds a configuration naming `howick-frama` with
/// the Howick FRAMA constructor, and refuses every other kind as unknown; the
/// driver of a configuration that names none is built in.
pub proof fn law_builtin_registry<C>(r: DriverRegistry<C>, howick_frama: C, config: AgentConfig)
    requires
        r@ == Map::<Seq<char>, C>::empty().insert(spec_howick_frama_kind(), howick_frama),
    ensures
        config.driver@ == spec_howick_frama_kind() ==> r@.dom().contains(config.driver@) && r@[config.driver@]
            == howick_frama,
        config.driver@ != spec_howick_frama_kind() ==> !r@.dom().contains(config.driver@),
        r@.dom().contains(spec_default_driver()),
{
}

/// Two ascending lists of the same kinds are the same list: the listing of
/// the supported kinds depends on which kinds are registered, not on the
/// order in which they were registered.
pub proof fn law_kind_listing_unique(a: Seq<&'static str>, b: Seq<&'static str>)
    requires
        sorted_kinds(a),
        sorted_kinds(b),
        forall|k: Seq<char>| lists_kind(a, k) <==> lists_kind(b, k),
    ensures
        a.len() == b.len(),
        forall|i: int| 0 <= i < a.len() ==> #[trigger] a[i]@ == b[i]@,
    decreases a.len(),
{
    if a.len() == 0 {
        if b.len() > 0 {
            assert(lists_kind(b, b[0]@));
        }
    } else if b.len() == 0 {
        assert(lists_kind(a, a[0]@));
    } else {
        assert(lists_kind(a, a[0]@));
        assert(lists_kind(b, b[0]@));
        let q = choose|q: int| 0 <= q < b.len() && #[trigger] b[q]@ == a[0]@;
        let r = choose|r: int| 0 <= r < a.len() && #[trigger] a[r]@ == b[0]@;
        if q > 0 {
            assert(seq_lt(b[0]@, b[q]@));
            if r > 0 {
                assert(seq_lt(a[0]@, a[r]@));
                lemma_seq_lt_asymmetric(a[0]@, b[0]@);
            } else {
                lemma_seq_lt_irreflexive(a[0]@);
            }
        }
        assert(a[0]@ == b[0]@);
        let ta = a.drop_first();
        let tb = b.drop_first();
        assert forall|k: Seq<char>| lists_kind(ta, k) <==> lists_kind(tb, k) by {
            if lists_kind(ta, k) {
                let i = choose|i: int| 0 <= i < ta.len() && #[trigger] ta[i]@ == k;
                assert(a[i + 1]@ == k);
                assert(lists_kind(a, k));
                let j = choose|j: int| 0 <= j < b.len() && #[trigger] b[j]@ == k;
                assert(seq_lt(a[0]@, a[i + 1]@));
                if j == 0 {
                    lemma_seq_lt_irreflexive(k);
                }
                assert(tb[j - 1]@ == k);
            }
            if lists_kind(tb, k) {
                let i = choose|i: int| 0 <= i < tb.len() && #[trigger] tb[i]@ == k;
                assert(b[i + 1]@ == k);
                assert(lists_kind(b, k));
                let j = choose|j: int| 0 <= j < a.len() && #[trigger] a[j]@ == k;
                assert(seq_lt(b[0]@, b[i + 1]@));
                if j == 0 {
                    lemma_seq_lt_irreflexive(k);
                }
                assert(ta[j - 1]@ == k);
            }
        }
        assert(sorted_kinds(ta)) by {
            assert forall|i: int, j: int| 0 <= i < j < ta.len() implies seq_lt(#[trigger] ta[i]@, #[trigger] ta[j]@) by {
                assert(seq_lt(a[i + 1]@, a[j + 1]@));
            }
        }
        assert(sorted_kinds(tb)) by {
            assert forall|i: int, j: int| 0 <= i < j < tb.len() implies seq_lt(#[trigger] tb[i]@, #[trigger] tb[j]@) by {
                assert(seq_lt(b[i + 1]@, b[j + 1]@));
            }
        }
        law_kind_listing_unique(ta, tb);
        assert forall|i: int| 0 <= i < a.len() implies #[trigger] a[i]@ == b[i]@ by {
            if i > 0 {
                assert(ta[i - 1]@ == tb[i - 1]@);
            }
        }
    }
}

/// The position of the entry of kind `kind`, if there is one.
fn find_kind<C>(entries: &Vec<(&'static str, C)>, kind: &str) -> (r: Option<usize>)
    ensures
        r matches Some(i) ==> i < entries@.len() && entries@[i as int].0@ == kind@,
        r is None ==> !has_kind(entries@, kind@),
{
    let n = entries.len();
    let mut i: usize = 0;
    while i < n
        invariant
            i <= n,
            n == entries@.len(),
            forall|j: int| 0 <= j < i ==> #[trigger] entries@[j].0@ != kind@,
        decreases n - i,
    {
        if str_eq(entries[i].0, kind) {
            return Some(i);
        }
        i = i + 1;
    }
    None
}

} // verus!
