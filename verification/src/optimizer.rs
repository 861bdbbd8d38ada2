//! Static analysis of the templates a transformation produced:
//! deduplication statistics and optimization suggestions.

use vstd::prelude::*;
use crate::template::{Template, TemplateV};
use crate::text::{chars_of, extend_chars, extend_str, string_of, str_eq, decimal_chars, decimal};

verus! {

broadcast use vstd::string::group_string_axioms;

/// The length of the UTF-8 encoding of `s`, as `str::len` returns it.
pub open spec fn byte_len(s: Seq<char>) -> nat {
    (vstd::utf8::encode_utf8(s).len() as usize) as nat
}

/// Statistics about templates generated during transformation
#[derive(Debug, Clone, Copy)]
pub struct TemplateStats {
    /// Total number of templates encountered
    pub total_templates: usize,
    /// Number of unique templates (after deduplication)
    pub unique_templates: usize,
    /// Number of templates reused
    pub reused_templates: usize,
    /// Total HTML size before deduplication
    pub total_html_size: usize,
    /// Total HTML size after deduplication
    pub deduplicated_html_size: usize,
    /// Number of static templates (no dynamic slots)
    pub static_templates: usize,
    /// Number of dynamic templates
    pub dynamic_templates: usize,
}

/// All counters are zero.
pub open spec fn stats_empty(s: TemplateStats) -> bool {
    &&& s.total_templates == 0
    &&& s.unique_templates == 0
    &&& s.reused_templates == 0
    &&& s.total_html_size == 0
    &&& s.deduplicated_html_size == 0
    &&& s.static_templates == 0
    &&& s.dynamic_templates == 0
}

impl Default for TemplateStats {
    fn default() -> (r: Self)
        ensures
            stats_empty(r),
    {
        TemplateStats {
            total_templates: 0,
            unique_templates: 0,
            reused_templates: 0,
            total_html_size: 0,
            deduplicated_html_size: 0,
            static_templates: 0,
            dynamic_templates: 0,
        }
    }
}

impl TemplateStats {
    /// Create new empty statistics
    pub fn new() -> (r: Self)
        ensures
            stats_empty(r),
    {
        Self::default()
    }

    /// Calculate space saved by deduplication
    pub fn space_saved(&self) -> (r: usize)
        ensures
            r == (if self.total_html_size >= self.deduplicated_html_size {
                self.total_html_size - self.deduplicated_html_size
            } else {
                0
            }),
    {
        self.total_html_size.saturating_sub(self.deduplicated_html_size)
    }
}

/// One distinct template: its HTML, how often it was recorded, and the
/// template as first recorded.
pub struct EntryV {
    pub html: Seq<char>,
    pub count: nat,
    pub template: TemplateV,
}

/// Template optimizer for static analysis
pub struct TemplateOptimizer {
    htmls: Vec<String>,
    counts: Vec<usize>,
    templates: Vec<Template>,
    /// The templates recorded, in order.
    history: Ghost<Seq<TemplateV>>,
}

/// The position of the entry with this HTML.
pub open spec fn find_entry(es: Seq<EntryV>, html: Seq<char>) -> Option<int>
    decreases es.len(),
{
    if es.len() == 0 {
        None
    } else {
        match find_entry(es.drop_last(), html) {
            Some(k) => Some(k),
            None => if es.last().html == html {
                Some(es.len() - 1)
            } else {
                None
            },
        }
    }
}

/// The entries after recording a template: a known HTML counts once more,
/// a new one is added with its template.
pub open spec fn recorded(es: Seq<EntryV>, t: TemplateV) -> Seq<EntryV> {
    match find_entry(es, t.html) {
        Some(i) => es.update(i, EntryV { count: es[i].count + 1, ..es[i] }),
        None => es.push(EntryV { html: t.html, count: 1, template: t }),
    }
}

proof fn lemma_find_entry_at(es: Seq<EntryV>, html: Seq<char>, i: int)
    requires
        0 <= i < es.len(),
        es[i].html == html,
        forall|a: int, b: int| 0 <= a < b < es.len() ==> es[a].html != es[b].html,
    ensures
        find_entry(es, html) == Some(i),
    decreases es.len(),
{
    if i < es.len() - 1 {
        lemma_find_entry_at(es.drop_last(), html, i);
    } else {
        lemma_find_entry_none(es.drop_last(), html);
    }
}

proof fn lemma_find_entry_none(es: Seq<EntryV>, html: Seq<char>)
    requires
        forall|a: int| 0 <= a < es.len() ==> es[a].html != html,
    ensures
        find_entry(es, html) is None,
    decreases es.len(),
{
    if es.len() > 0 {
        lemma_find_entry_none(es.drop_last(), html);
    }
}

/// The number of recordings of all templates.
pub open spec fn total_count(es: Seq<EntryV>) -> nat
    decreases es.len(),
{
    if es.len() == 0 { 0 } else { total_count(es.drop_last()) + es.last().count }
}

/// The HTML size of all recordings, without deduplication.
pub open spec fn total_bytes(es: Seq<EntryV>) -> nat
    decreases es.len(),
{
    if es.len() == 0 { 0 } else { total_bytes(es.drop_last()) + byte_len(es.last().html) * es.last().count }
}

/// The HTML size with each distinct template counted once.
pub open spec fn distinct_bytes(es: Seq<EntryV>) -> nat
    decreases es.len(),
{
    if es.len() == 0 { 0 } else { distinct_bytes(es.drop_last()) + byte_len(es.last().html) }
}

/// The number of distinct templates without dynamic slots.
pub open spec fn static_count(es: Seq<EntryV>) -> nat
    decreases es.len(),
{
    if es.len() == 0 {
        0
    } else {
        static_count(es.drop_last()) + if es.last().template.slots.len() == 0 { 1nat } else { 0nat }
    }
}

/// The statistics fit in `usize`.
pub open spec fn stats_fit(es: Seq<EntryV>) -> bool {
    total_count(es) <= usize::MAX && total_bytes(es) <= usize::MAX && distinct_bytes(es) <= usize::MAX
}

/// The statistics of a set of distinct templates.
pub open spec fn stats_of(es: Seq<EntryV>, s: TemplateStats) -> bool {
    &&& s.unique_templates == es.len()
    &&& s.total_templates == total_count(es)
    &&& s.reused_templates == total_count(es) - es.len()
    &&& s.total_html_size == total_bytes(es)
    &&& s.deduplicated_html_size == distinct_bytes(es)
    &&& s.static_templates == static_count(es)
    &&& s.dynamic_templates == es.len() - static_count(es)
}

/// The templates recorded more than once, with their counts, in the order
/// in which they were first recorded.
pub open spec fn reused(es: Seq<EntryV>) -> Seq<(Seq<char>, nat)>
    decreases es.len(),
{
    if es.len() == 0 {
        Seq::empty()
    } else {
        reused(es.drop_last()) + if es.last().count > 1 {
            seq![(es.last().html, es.last().count)]
        } else {
            Seq::empty()
        }
    }
}

/// Type of optimization that can be applied
#[derive(Debug, Clone, Copy, PartialEq, Eq, Structural)]
pub enum OptimizationKind {
    /// Template is very large and could be split
    LargeTemplate,
    /// Template has many dynamic slots
    ManyDynamicSlots,
    /// Template is used frequently (good deduplication candidate)
    FrequentlyUsed,
}

/// Optimization suggestion
#[derive(Debug)]
pub struct Optimization {
    /// Type of optimization
    pub kind: OptimizationKind,
    /// Description of the optimization
    pub message: String,
    /// Template HTML this applies to
    pub template_html: String,
}

/// The mathematical value of a suggestion.
pub struct OptimizationV {
    pub kind: OptimizationKind,
    pub message: Seq<char>,
    pub template_html: Seq<char>,
}

impl View for Optimization {
    type V = OptimizationV;

    open spec fn view(&self) -> OptimizationV {
        OptimizationV { kind: self.kind, message: self.message@, template_html: self.template_html@ }
    }
}

pub open spec fn large_message(bytes: nat, slots: nat) -> Seq<char> {
    "Large template ("@ + decimal(bytes) + " bytes, "@ + decimal(slots) + " dynamic slots) could be split"@
}

pub open spec fn many_slots_message(slots: nat) -> Seq<char> {
    "Template with "@ + decimal(slots) + " dynamic slots may have performance impact"@
}

/// Templates over 1000 bytes with more than 5 dynamic slots.
pub open spec fn large_suggestions(es: Seq<EntryV>) -> Seq<OptimizationV>
    decreases es.len(),
{
    if es.len() == 0 {
        Seq::empty()
    } else {
        let e = es.last();
        large_suggestions(es.drop_last()) + if byte_len(e.html) > 1000 && e.template.slots.len() > 5 {
            seq![OptimizationV {
                kind: OptimizationKind::LargeTemplate,
                message: large_message(byte_len(e.html), e.template.slots.len()),
                template_html: e.html,
            }]
        } else {
            Seq::empty()
        }
    }
}

/// Templates with more than 10 dynamic slots.
pub open spec fn many_slot_suggestions(es: Seq<EntryV>) -> Seq<OptimizationV>
    decreases es.len(),
{
    if es.len() == 0 {
        Seq::empty()
    } else {
        let e = es.last();
        many_slot_suggestions(es.drop_last()) + if e.template.slots.len() > 10 {
            seq![OptimizationV {
                kind: OptimizationKind::ManyDynamicSlots,
                message: many_slots_message(e.template.slots.len()),
                template_html: e.html,
            }]
        } else {
            Seq::empty()
        }
    }
}

impl TemplateOptimizer {
    /// The distinct templates, in the order in which they were first recorded.
    pub closed spec fn entries(&self) -> Seq<EntryV> {
        Seq::new(self.htmls@.len(), |i: int| EntryV {
            html: self.htmls@[i]@,
            count: self.counts@[i] as nat,
            template: self.templates@[i]@,
        })
    }

    /// The templates recorded so far, in order.
    pub closed spec fn history(&self) -> Seq<TemplateV> {
        self.history@
    }

    /// The three lists are parallel, the HTML strings are distinct, every
    /// count is at least one, each template's HTML is its key, and the
    /// entries are those of the templates recorded so far.
    pub closed spec fn wf(&self) -> bool {
        &&& self.entries() == recorded_all(self.history@)
        &&& self.htmls@.len() == self.counts@.len()
        &&& self.htmls@.len() == self.templates@.len()
        &&& forall|i: int, j: int|
            0 <= i < j < self.htmls@.len() ==> self.htmls@[i]@ != self.htmls@[j]@
        &&& forall|i: int| 0 <= i < self.counts@.len() ==> self.counts@[i] >= 1
        &&& forall|i: int| 0 <= i < self.htmls@.len() ==> self.templates@[i]@.html == self.htmls@[i]@
    }

    /// The entries have distinct HTML and positive counts.
    pub proof fn lemma_wf_entries(&self)
        requires
            self.wf(),
        ensures
            forall|i: int, j: int|
                0 <= i < j < self.entries().len() ==> self.entries()[i].html != self.entries()[j].html,
            forall|i: int| 0 <= i < self.entries().len() ==> self.entries()[i].count >= 1,
            forall|i: int|
                0 <= i < self.entries().len() ==> self.entries()[i].template.html == self.entries()[i].html,
    {
    }

    /// Create a new template optimizer
    pub fn new() -> (r: Self)
        ensures
            r.wf(),
            r.entries().len() == 0,
            r.history() == Seq::<TemplateV>::empty(),
    {
        let r = TemplateOptimizer {
            htmls: Vec::new(),
            counts: Vec::new(),
            templates: Vec::new(),
            history: Ghost(Seq::empty()),
        };
        assert(r.entries() =~= Seq::<EntryV>::empty());
        r
    }

    /// The position of the entry with this HTML, if any.
    fn find(&self, html: &str) -> (r: Option<usize>)
        requires
            self.wf(),
        ensures
            match r {
                Some(i) => i < self.entries().len() && self.entries()[i as int].html == html@,
                None => forall|i: int| 0 <= i < self.entries().len() ==> self.entries()[i].html != html@,
            },
    {
        let n = self.htmls.len();
        for i in 0..n
            invariant
                n == self.htmls.len(),
                self.wf(),
                forall|j: int| 0 <= j < i ==> self.entries()[j].html != html@,
        {
            if str_eq(self.htmls[i].as_str(), html) {
                return Some(i);
            }
        }
        None
    }

    /// The number of distinct templates.
    pub fn len(&self) -> (r: usize)
        requires
            self.wf(),
        ensures
            r == self.entries().len(),
    {
        self.htmls.len()
    }

    /// How many times the `i`-th distinct template was recorded.
    pub fn count_at(&self, i: usize) -> (r: usize)
        requires
            self.wf(),
            i < self.entries().len(),
        ensures
            r == self.entries()[i as int].count,
    {
        self.counts[i]
    }

    /// How many times a template with this HTML was recorded.
    pub fn usage_count(&self, html: &str) -> (r: usize)
        requires
            self.wf(),
        ensures
            (exists|i: int| 0 <= i < self.entries().len() && self.entries()[i].html == html@ && self.entries()[i].count == r)
                || (r == 0 && forall|i: int| 0 <= i < self.entries().len() ==> self.entries()[i].html != html@),
    {
        match self.find(html) {
            Some(i) => self.counts[i],
            None => 0,
        }
    }

    /// Record a template usage: a known HTML string counts once more, a new
    /// one is added with its template.
    pub fn record_template(&mut self, template: Template)
        requires
            old(self).wf(),
            forall|i: int|
                0 <= i < old(self).entries().len() && old(self).entries()[i].html == template@.html
                    ==> old(self).entries()[i].count < usize::MAX,
        ensures
            final(self).wf(),
            final(self).entries() == recorded(old(self).entries(), template@),
            final(self).history() == old(self).history().push(template@),
    {
        let ghost old_entries = self.entries();
        let ghost h = self.history@.push(template@);
        assert(h.drop_last() =~= self.history@);
        match self.find(template.html.as_str()) {
            Some(i) => {
                let c = self.counts[i];
                self.counts.set(i, c + 1);
                assert(self.entries() =~= old_entries.update(
                    i as int,
                    EntryV { count: old_entries[i as int].count + 1, ..old_entries[i as int] },
                ));
                proof {
                    lemma_find_entry_at(old_entries, template@.html, i as int);
                }
            },
            None => {
                let h = template.html.clone();
                self.htmls.push(h);
                self.counts.push(1);
                self.templates.push(template);
                assert forall|a: int, b: int| 0 <= a < b < self.htmls@.len() implies self.htmls@[a]@ != self.htmls@[b]@ by {
                    if b == self.htmls@.len() - 1 {
                        assert(old_entries[a].html != template@.html);
                    }
                }
                assert(self.entries() =~= old_entries.push(
                    EntryV { html: template@.html, count: 1, template: template@ },
                ));
                proof {
                    lemma_find_entry_none(old_entries, template@.html);
                }
            },
        }
        self.history = Ghost(h);
    }

    /// Statistics, or `None` where a counter would not fit in `usize`.
    pub fn try_get_stats(&self) -> (r: Option<TemplateStats>)
        requires
            self.wf(),
        ensures
            match r {
                Some(s) => stats_of(self.entries(), s),
                None => !stats_fit(self.entries()),
            },
    {
        let ghost es = self.entries();
        let n = self.htmls.len();
        let mut total: usize = 0;
        let mut bytes: usize = 0;
        let mut distinct: usize = 0;
        let mut statics: usize = 0;
        let mut overflow = false;
        assert(es.take(0) =~= Seq::<EntryV>::empty());
        for i in 0..n
            invariant
                n == self.htmls.len(),
                self.wf(),
                es == self.entries(),
                !overflow ==> total == total_count(es.take(i as int)),
                !overflow ==> bytes == total_bytes(es.take(i as int)),
                !overflow ==> distinct == distinct_bytes(es.take(i as int)),
                !overflow ==> statics == static_count(es.take(i as int)),
                !overflow ==> statics <= i,
                overflow ==> !stats_fit(es),
        {
            assert(es.take(i + 1).drop_last() =~= es.take(i as int));
            assert(es.take(i + 1).last() == es[i as int]);
            if !overflow {
                let b = self.htmls[i].as_str().len();
                assert(b == byte_len(es[i as int].html));
                let c = self.counts[i];
                proof {
                    lemma_prefix_sums_bounded(es, i as int + 1);
                }
                match (total.checked_add(c), b.checked_mul(c)) {
                    (Some(t2), Some(bc)) => match (bytes.checked_add(bc), distinct.checked_add(b)) {
                        (Some(b2), Some(d2)) => {
                            total = t2;
                            bytes = b2;
                            distinct = d2;
                            if self.templates[i].dynamic_slots.len() == 0 {
                                statics = statics + 1;
                            }
                        },
                        _ => {
                            overflow = true;
                        },
                    },
                    _ => {
                        overflow = true;
                    },
                }
            }
        }
        assert(es.take(n as int) =~= es);
        if overflow {
            None
        } else {
            proof {
                lemma_total_count_ge_len(es);
            }
            Some(TemplateStats {
                total_templates: total,
                unique_templates: n,
                reused_templates: total - n,
                total_html_size: bytes,
                deduplicated_html_size: distinct,
                static_templates: statics,
                dynamic_templates: n - statics,
            })
        }
    }

    /// Get statistics about template usage
    pub fn get_stats(&self) -> (r: TemplateStats)
        requires
            self.wf(),
            stats_fit(self.entries()),
        ensures
            stats_of(self.entries(), r),
            r.total_templates == self.history().len(),
            r.unique_templates == self.history().map_values(|t: TemplateV| t.html).to_set().len(),
            r.reused_templates == r.total_templates - r.unique_templates,
            r.total_html_size == html_bytes(self.history()),
            r.deduplicated_html_size == first_bytes(self.history()),
            r.static_templates == first_static(self.history()),
            r.static_templates + r.dynamic_templates == r.unique_templates,
    {
        let r = match self.try_get_stats() {
            Some(s) => s,
            None => TemplateStats::new(),
        };
        proof {
            law_stats_of_sequence(self.history@, r);
        }
        r
    }

    /// Get templates that are used multiple times (good deduplication targets)
    pub fn get_reused_templates(&self) -> (r: Vec<(String, usize)>)
        requires
            self.wf(),
        ensures
            r@.map_values(|p: (String, usize)| (p.0@, p.1 as nat)) == reused(self.entries()),
    {
        let ghost es = self.entries();
        let mut r: Vec<(String, usize)> = Vec::new();
        let n = self.htmls.len();
        assert(es.take(0) =~= Seq::<EntryV>::empty());
        for i in 0..n
            invariant
                n == self.htmls.len(),
                self.wf(),
                es == self.entries(),
                r@.map_values(|p: (String, usize)| (p.0@, p.1 as nat)) == reused(es.take(i as int)),
        {
            assert(es.take(i + 1).drop_last() =~= es.take(i as int));
            assert(es.take(i + 1).last() == es[i as int]);
            let ghost before = r@;
            if self.counts[i] > 1 {
                r.push((self.htmls[i].clone(), self.counts[i]));
            }
            assert(r@.map_values(|p: (String, usize)| (p.0@, p.1 as nat)) =~= reused(es.take(i + 1)));
        }
        assert(es.take(n as int) =~= es);
        r
    }

    /// Find optimization opportunities: large templates with many slots,
    /// then templates with very many slots.
    pub fn find_optimizations(&self) -> (r: Vec<Optimization>)
        requires
            self.wf(),
        ensures
            r@.map_values(|o: Optimization| o@) == large_suggestions(self.entries()) + many_slot_suggestions(
                self.entries(),
            ),
            suggests_large(large_suggestions(self.entries()), self.history()),
            suggests_many(many_slot_suggestions(self.entries()), self.history()),
    {
        let ghost es = self.entries();
        let mut r: Vec<Optimization> = Vec::new();
        let n = self.htmls.len();
        assert(es.take(0) =~= Seq::<EntryV>::empty());
        for i in 0..n
            invariant
                n == self.htmls.len(),
                self.wf(),
                es == self.entries(),
                r@.map_values(|o: Optimization| o@) == large_suggestions(es.take(i as int)),
        {
            assert(es.take(i + 1).drop_last() =~= es.take(i as int));
            assert(es.take(i + 1).last() == es[i as int]);
            let b = self.htmls[i].as_str().len();
            assert(b == byte_len(es[i as int].html));
            let k = self.templates[i].dynamic_slots.len();
            assert(k == es[i as int].template.slots.len());
            if b > 1000 && k > 5 {
                let mut m = chars_of("Large template (");
                let d1 = decimal_chars(b);
                extend_chars(&mut m, &d1);
                extend_str(&mut m, " bytes, ");
                let d2 = decimal_chars(k);
                extend_chars(&mut m, &d2);
                extend_str(&mut m, " dynamic slots) could be split");
                let o = Optimization {
                    kind: OptimizationKind::LargeTemplate,
                    message: string_of(&m),
                    template_html: self.htmls[i].clone(),
                };
                assert(o@.message == large_message(byte_len(es[i as int].html), es[i as int].template.slots.len()));
                r.push(o);
            }
            assert(r@.map_values(|o: Optimization| o@) =~= large_suggestions(es.take(i + 1)));
        }
        assert(es.take(n as int) =~= es);
        let ghost first = r@.map_values(|o: Optimization| o@);
        for i in 0..n
            invariant
                n == self.htmls.len(),
                self.wf(),
                es == self.entries(),
                r@.map_values(|o: Optimization| o@) == first + many_slot_suggestions(es.take(i as int)),
        {
            assert(es.take(i + 1).drop_last() =~= es.take(i as int));
            assert(es.take(i + 1).last() == es[i as int]);
            let k = self.templates[i].dynamic_slots.len();
            assert(k == es[i as int].template.slots.len());
            let ghost before = r@.map_values(|o: Optimization| o@);
            if k > 10 {
                let mut m = chars_of("Template with ");
                let d = decimal_chars(k);
                extend_chars(&mut m, &d);
                extend_str(&mut m, " dynamic slots may have performance impact");
                let o = Optimization {
                    kind: OptimizationKind::ManyDynamicSlots,
                    message: string_of(&m),
                    template_html: self.htmls[i].clone(),
                };
                assert(o@.message == many_slots_message(es[i as int].template.slots.len()));
                r.push(o);
                assert(r@.map_values(|o: Optimization| o@) =~= before.push(o@));
            }
            assert(r@.map_values(|o: Optimization| o@) =~= first + many_slot_suggestions(es.take(i + 1)));
        }
        assert(suggests_large(large_suggestions(es), self.history()) && suggests_many(many_slot_suggestions(es), self.history()))
            by {
            law_suggestions_of_sequence(self.history@);
        }
        r
    }
}

impl Default for TemplateOptimizer {
    fn default() -> (r: Self)
        ensures
            r.wf(),
            r.entries().len() == 0,
    {
        Self::new()
    }
}

proof fn lemma_total_count_ge_len(es: Seq<EntryV>)
    requires
        forall|i: int| 0 <= i < es.len() ==> es[i].count >= 1,
    ensures
        total_count(es) >= es.len(),
    decreases es.len(),
{
    if es.len() > 0 {
        assert forall|i: int| 0 <= i < es.drop_last().len() implies es.drop_last()[i].count >= 1 by {
            assert(es.drop_last()[i] == es[i]);
        }
        lemma_total_count_ge_len(es.drop_last());
    }
}

proof fn lemma_prefix_sums_bounded(es: Seq<EntryV>, k: int)
    requires
        0 <= k <= es.len(),
    ensures
        total_count(es.take(k)) <= total_count(es),
        total_bytes(es.take(k)) <= total_bytes(es),
        distinct_bytes(es.take(k)) <= distinct_bytes(es),
    decreases es.len(),
{
    if k < es.len() {
        assert(es.drop_last().take(k) =~= es.take(k));
        lemma_prefix_sums_bounded(es.drop_last(), k);
    } else {
        assert(es.take(k) =~= es);
    }
}

proof fn lemma_find_entry_some(es: Seq<EntryV>, html: Seq<char>)
    ensures
        find_entry(es, html) matches Some(i) ==> 0 <= i < es.len() && es[i].html == html,
    decreases es.len(),
{
    if es.len() > 0 {
        lemma_find_entry_some(es.drop_last(), html);
    }
}

proof fn lemma_sums_after_count_up(es: Seq<EntryV>, i: int)
    requires
        0 <= i < es.len(),
    ensures
        ({
            let es2 = es.update(i, EntryV { count: es[i].count + 1, ..es[i] });
            &&& total_count(es2) == total_count(es) + 1
            &&& total_bytes(es2) == total_bytes(es) + byte_len(es[i].html)
            &&& distinct_bytes(es2) == distinct_bytes(es)
            &&& static_count(es2) == static_count(es)
        }),
    decreases es.len(),
{
    let es2 = es.update(i, EntryV { count: es[i].count + 1, ..es[i] });
    if i < es.len() - 1 {
        lemma_sums_after_count_up(es.drop_last(), i);
        assert(es2.drop_last() =~= es.drop_last().update(i, EntryV { count: es[i].count + 1, ..es[i] }));
    } else {
        assert(es2.drop_last() =~= es.drop_last());
        let b = byte_len(es[i].html);
        let c = es[i].count;
        assert(b * (c + 1) == b * c + b) by (nonlinear_arith);
    }
}

/// Recording a template counts one more use of it and adds its HTML to the
/// size without deduplication; it adds a distinct template, and its HTML
/// to the deduplicated size, exactly when no template with that HTML was
/// recorded before.
pub proof fn law_recording_deduplicates(es: Seq<EntryV>, t: TemplateV)
    ensures
        total_count(recorded(es, t)) == total_count(es) + 1,
        total_bytes(recorded(es, t)) == total_bytes(es) + byte_len(t.html),
        find_entry(es, t.html) is Some ==> recorded(es, t).len() == es.len() && distinct_bytes(recorded(es, t))
            == distinct_bytes(es),
        find_entry(es, t.html) is None ==> recorded(es, t).len() == es.len() + 1 && distinct_bytes(
            recorded(es, t),
        ) == distinct_bytes(es) + byte_len(t.html),
{
    lemma_find_entry_some(es, t.html);
    match find_entry(es, t.html) {
        Some(i) => {
            lemma_sums_after_count_up(es, i);
        },
        None => {
            let es2 = es.push(EntryV { html: t.html, count: 1, template: t });
            assert(es2.drop_last() =~= es);
        },
    }
}

/// The entries after recording each template of `ts` in turn, from none.
pub open spec fn recorded_all(ts: Seq<TemplateV>) -> Seq<EntryV>
    decreases ts.len(),
{
    if ts.len() == 0 {
        Seq::empty()
    } else {
        recorded(recorded_all(ts.drop_last()), ts.last())
    }
}

/// How many templates of `ts` have this HTML.
pub open spec fn html_count(ts: Seq<TemplateV>, h: Seq<char>) -> nat
    decreases ts.len(),
{
    if ts.len() == 0 {
        0
    } else {
        html_count(ts.drop_last(), h) + if ts.last().html == h { 1nat } else { 0nat }
    }
}

/// The HTML size of all templates of `ts`.
pub open spec fn html_bytes(ts: Seq<TemplateV>) -> nat
    decreases ts.len(),
{
    if ts.len() == 0 {
        0
    } else {
        html_bytes(ts.drop_last()) + byte_len(ts.last().html)
    }
}

/// The position of the first template of `ts` with this HTML (`ts.len()`
/// when there is none).
pub open spec fn first_index(ts: Seq<TemplateV>, h: Seq<char>) -> int
    decreases ts.len(),
{
    if ts.len() == 0 {
        0
    } else if html_count(ts.drop_last(), h) > 0 {
        first_index(ts.drop_last(), h)
    } else if ts.last().html == h {
        ts.len() - 1
    } else {
        ts.len() as int
    }
}

proof fn lemma_first_index(ts: Seq<TemplateV>, h: Seq<char>)
    ensures
        html_count(ts, h) > 0 ==> 0 <= first_index(ts, h) < ts.len() && ts[first_index(ts, h)].html == h,
        html_count(ts, h) == 0 ==> first_index(ts, h) == ts.len(),
        forall|i: int| 0 <= i < ts.len() && ts[i].html == h ==> html_count(ts, h) > 0,
    decreases ts.len(),
{
    if ts.len() > 0 {
        lemma_first_index(ts.drop_last(), h);
        assert forall|i: int| 0 <= i < ts.len() && ts[i].html == h implies html_count(ts, h) > 0 by {
            if i < ts.len() - 1 {
                assert(ts.drop_last()[i] == ts[i]);
            }
        }
    }
}

/// What the entries of a recorded sequence are, except their number.
pub open spec fn entries_of_sequence(ts: Seq<TemplateV>, es: Seq<EntryV>) -> bool {
    &&& total_count(es) == ts.len()
    &&& total_bytes(es) == html_bytes(ts)
    &&& forall|a: int, b: int| 0 <= a < b < es.len() ==> es[a].html != es[b].html
    &&& forall|i: int| 0 <= i < ts.len() ==> find_entry(es, (#[trigger] ts[i]).html) is Some
    &&& forall|k: int|
        0 <= k < es.len() ==> {
            &&& (#[trigger] es[k]).count == html_count(ts, es[k].html)
            &&& es[k].count >= 1
            &&& 0 <= first_index(ts, es[k].html) < ts.len()
            &&& es[k].template == ts[first_index(ts, es[k].html)]
        }
    &&& forall|a: int, b: int|
        0 <= a < b < es.len() ==> first_index(ts, (#[trigger] es[a]).html) < first_index(ts, (#[trigger] es[b]).html)
}

proof fn lemma_entries_of_sequence(ts: Seq<TemplateV>)
    ensures
        entries_of_sequence(ts, recorded_all(ts)),
    decreases ts.len(),
{
    if ts.len() > 0 {
        let p = ts.drop_last();
        let t = ts.last();
        lemma_entries_of_sequence(p);
        let es0 = recorded_all(p);
        let es = recorded(es0, t);
        law_recording_deduplicates(es0, t);
        lemma_find_entry_some(es0, t.html);
        lemma_first_index(p, t.html);
        assert forall|k: int| 0 <= k < es0.len() implies html_count(p, (#[trigger] es0[k]).html) > 0
            && first_index(ts, es0[k].html) == first_index(p, es0[k].html) by {
        }
        match find_entry(es0, t.html) {
            Some(i) => {
                assert forall|k: int| 0 <= k < es.len() implies (#[trigger] es[k]).html == es0[k].html by {}
                assert forall|k: int|
                    0 <= k < es.len() && k != i implies (#[trigger] es[k]) == es0[k] && es0[k].html != t.html by {}
                assert forall|j: int| 0 <= j < ts.len() implies find_entry(es, (#[trigger] ts[j]).html) is Some by {
                    if j < p.len() {
                        assert(p[j] == ts[j]);
                        lemma_find_entry_some(es0, p[j].html);
                        let k = find_entry(es0, p[j].html)->Some_0;
                        lemma_find_entry_at(es, ts[j].html, k);
                    } else {
                        lemma_find_entry_at(es, t.html, i);
                    }
                }
                assert(first_index(ts, t.html) == first_index(p, t.html));
            },
            None => {
                assert forall|k: int| 0 <= k < es0.len() implies (#[trigger] es0[k]).html != t.html by {
                    if es0[k].html == t.html {
                        lemma_find_entry_at(es0, t.html, k);
                    }
                }
                assert(html_count(p, t.html) == 0) by {
                    if html_count(p, t.html) > 0 {
                        let j = first_index(p, t.html);
                        assert(p[j] == ts[j]);
                    }
                }
                assert(first_index(ts, t.html) == p.len());
                assert forall|j: int| 0 <= j < ts.len() implies find_entry(es, (#[trigger] ts[j]).html) is Some by {
                    if j < p.len() {
                        assert(p[j] == ts[j]);
                        lemma_find_entry_some(es0, p[j].html);
                        let k = find_entry(es0, p[j].html)->Some_0;
                        lemma_find_entry_at(es, ts[j].html, k);
                    } else {
                        lemma_find_entry_at(es, t.html, es0.len() as int);
                    }
                }
            },
        }
    }
}

/// Recording a sequence of templates from none: one entry per distinct
/// HTML, in the order in which each HTML was first recorded, holding the
/// template first recorded with it and how often it was recorded; the
/// totals count every recording.
pub proof fn law_recorded_sequence(ts: Seq<TemplateV>)
    ensures
        entries_of_sequence(ts, recorded_all(ts)),
        recorded_all(ts).len() == ts.map_values(|t: TemplateV| t.html).to_set().len(),
{
    lemma_entries_of_sequence(ts);
    let es = recorded_all(ts);
    let hs = es.map_values(|e: EntryV| e.html);
    let htmls = ts.map_values(|t: TemplateV| t.html);
    assert(hs.no_duplicates());
    hs.unique_seq_to_set();
    assert forall|x: Seq<char>| hs.to_set().contains(x) <==> htmls.to_set().contains(x) by {
        if hs.to_set().contains(x) {
            let k = choose|k: int| 0 <= k < hs.len() && hs[k] == x;
            let j = first_index(ts, es[k].html);
            lemma_first_index(ts, es[k].html);
            assert(htmls[j] == x);
        }
        if htmls.to_set().contains(x) {
            let j = choose|j: int| 0 <= j < htmls.len() && htmls[j] == x;
            assert(ts[j].html == x);
            lemma_find_entry_some(es, x);
            let k = find_entry(es, x)->Some_0;
            assert(hs[k] == x);
        }
    }
    assert(hs.to_set() =~= htmls.to_set());
}

/// A template that the optimizer suggests splitting.
pub open spec fn large_cond(e: EntryV) -> bool {
    byte_len(e.html) > 1000 && e.template.slots.len() > 5
}

/// A template with many dynamic slots.
pub open spec fn many_cond(e: EntryV) -> bool {
    e.template.slots.len() > 10
}

pub open spec fn entries_distinct(es: Seq<EntryV>) -> bool {
    forall|a: int, b: int| 0 <= a < b < es.len() ==> es[a].html != es[b].html
}

/// The position of the first suggestion for this HTML.
pub open spec fn find_suggestion(os: Seq<OptimizationV>, h: Seq<char>) -> Option<int>
    decreases os.len(),
{
    if os.len() == 0 {
        None
    } else {
        match find_suggestion(os.drop_last(), h) {
            Some(k) => Some(k),
            None => if os.last().template_html == h {
                Some(os.len() - 1)
            } else {
                None
            },
        }
    }
}

proof fn lemma_find_suggestion_some(os: Seq<OptimizationV>, h: Seq<char>)
    ensures
        find_suggestion(os, h) matches Some(j) ==> 0 <= j < os.len() && os[j].template_html == h,
    decreases os.len(),
{
    if os.len() > 0 {
        lemma_find_suggestion_some(os.drop_last(), h);
    }
}

/// The suggestions of the kind `kind` are for the entries that meet
/// `cond`, one each, in order.
proof fn lemma_suggestions_match_entries(
    es: Seq<EntryV>,
    os: Seq<OptimizationV>,
    cond: spec_fn(EntryV) -> bool,
    kind: OptimizationKind,
)
    requires
        entries_distinct(es),
        os == large_suggestions(es) && cond == (|e: EntryV| large_cond(e)) && kind == OptimizationKind::LargeTemplate
            || os == many_slot_suggestions(es) && cond == (|e: EntryV| many_cond(e)) && kind
            == OptimizationKind::ManyDynamicSlots,
    ensures
        forall|j: int|
            0 <= j < os.len() ==> (#[trigger] os[j]).kind == kind && (find_entry(es, os[j].template_html) matches Some(k)
                && cond(es[k])),
        forall|k: int| 0 <= k < es.len() && cond(#[trigger] es[k]) ==> find_suggestion(os, es[k].html) is Some,
        forall|a: int, b: int|
            0 <= a < b < os.len() ==> (#[trigger] os[a]).template_html != (#[trigger] os[b]).template_html,
    decreases es.len(),
{
    if es.len() > 0 {
        let p = es.drop_last();
        let e = es.last();
        let o0 = if kind == OptimizationKind::LargeTemplate { large_suggestions(p) } else { many_slot_suggestions(p) };
        assert(entries_distinct(p));
        lemma_suggestions_match_entries(p, o0, cond, kind);
        let extra = os.skip(o0.len() as int);
        assert(os =~= o0 + extra);
        assert(extra.len() <= 1);
        assert(extra.len() == 1 ==> extra[0].template_html == e.html && extra[0].kind == kind && cond(e));
        assert(extra.len() == 0 ==> !cond(e));
        assert forall|j: int| 0 <= j < os.len() implies (#[trigger] os[j]).kind == kind && (find_entry(
            es,
            os[j].template_html,
        ) matches Some(k) && cond(es[k])) by {
            if j < o0.len() {
                assert(os[j] == o0[j]);
                lemma_find_entry_some(p, o0[j].template_html);
            } else {
                lemma_find_entry_at(es, e.html, es.len() - 1);
            }
        }
        assert forall|k: int| 0 <= k < es.len() && cond(#[trigger] es[k]) implies find_suggestion(os, es[k].html) is Some by {
            if k < p.len() {
                assert(p[k] == es[k]);
                assert(os.drop_last() =~= o0 || os =~= o0);
                if extra.len() == 1 {
                    assert(os.drop_last() =~= o0);
                }
            } else {
                assert(os.drop_last() =~= o0);
            }
        }
        assert forall|a: int, b: int| 0 <= a < b < os.len() implies (#[trigger] os[a]).template_html != (
        #[trigger] os[b]).template_html by {
            if b >= o0.len() {
                assert(os[a] == o0[a]);
                lemma_find_entry_some(p, o0[a].template_html);
                let k = find_entry(p, o0[a].template_html)->Some_0;
                assert(es[k] == p[k]);
            } else {
                assert(os[a] == o0[a] && os[b] == o0[b]);
            }
        }
    }
}

/// `l` suggests splitting exactly the large templates of the sequence
/// `ts`: one `LargeTemplate` suggestion per distinct HTML over 1000 bytes
/// whose first template has more than 5 slots, and nothing else.
pub open spec fn suggests_large(l: Seq<OptimizationV>, ts: Seq<TemplateV>) -> bool {
    &&& forall|j: int|
        0 <= j < l.len() ==> (#[trigger] l[j]).kind == OptimizationKind::LargeTemplate && html_count(ts, l[j].template_html)
            > 0 && byte_len(l[j].template_html) > 1000 && ts[first_index(ts, l[j].template_html)].slots.len() > 5
    &&& forall|i: int|
        0 <= i < ts.len() && byte_len((#[trigger] ts[i]).html) > 1000 && ts[first_index(ts, ts[i].html)].slots.len() > 5
            ==> exists|j: int| 0 <= j < l.len() && (#[trigger] l[j]).template_html == ts[i].html
    &&& forall|a: int, b: int| 0 <= a < b < l.len() ==> (#[trigger] l[a]).template_html != (#[trigger] l[b]).template_html
}

/// `m` names exactly the templates of `ts` with many slots: one
/// `ManyDynamicSlots` suggestion per distinct HTML whose first template has
/// more than 10 slots, and nothing else.
pub open spec fn suggests_many(m: Seq<OptimizationV>, ts: Seq<TemplateV>) -> bool {
    &&& forall|j: int|
        0 <= j < m.len() ==> (#[trigger] m[j]).kind == OptimizationKind::ManyDynamicSlots && html_count(
            ts,
            m[j].template_html,
        ) > 0 && ts[first_index(ts, m[j].template_html)].slots.len() > 10
    &&& forall|i: int|
        0 <= i < ts.len() && ts[first_index(ts, (#[trigger] ts[i]).html)].slots.len() > 10 ==> exists|j: int|
            0 <= j < m.len() && (#[trigger] m[j]).template_html == ts[i].html
    &&& forall|a: int, b: int| 0 <= a < b < m.len() ==> (#[trigger] m[a]).template_html != (#[trigger] m[b]).template_html
}

/// The suggestions for a recorded sequence of templates (large ones
/// first, then those with many slots, as `find_optimizations` returns
/// them): one `LargeTemplate` suggestion for each distinct HTML over 1000
/// bytes whose first template has more than 5 slots, one
/// `ManyDynamicSlots` suggestion for each distinct HTML whose first
/// template has more than 10 slots, and nothing else.
pub proof fn law_suggestions_of_sequence(ts: Seq<TemplateV>)
    ensures
        suggests_large(large_suggestions(recorded_all(ts)), ts),
        suggests_many(many_slot_suggestions(recorded_all(ts)), ts),
{
    lemma_entries_of_sequence(ts);
    let es = recorded_all(ts);
    assert(entries_distinct(es));
    let l = large_suggestions(es);
    let m = many_slot_suggestions(es);
    lemma_suggestions_match_entries(es, l, |e: EntryV| large_cond(e), OptimizationKind::LargeTemplate);
    lemma_suggestions_match_entries(es, m, |e: EntryV| many_cond(e), OptimizationKind::ManyDynamicSlots);
    assert forall|j: int| 0 <= j < l.len() implies (#[trigger] l[j]).kind == OptimizationKind::LargeTemplate
        && html_count(ts, l[j].template_html) > 0 && byte_len(l[j].template_html) > 1000
        && ts[first_index(ts, l[j].template_html)].slots.len() > 5 by {
        lemma_find_entry_some(es, l[j].template_html);
        let k = find_entry(es, l[j].template_html)->Some_0;
        assert(es[k].count >= 1);
    }
    assert forall|i: int|
        0 <= i < ts.len() && byte_len((#[trigger] ts[i]).html) > 1000 && ts[first_index(ts, ts[i].html)].slots.len()
            > 5 implies exists|j: int| 0 <= j < l.len() && (#[trigger] l[j]).template_html == ts[i].html by {
        lemma_find_entry_some(es, ts[i].html);
        let k = find_entry(es, ts[i].html)->Some_0;
        assert(large_cond(es[k]));
        lemma_find_suggestion_some(l, es[k].html);
        let j = find_suggestion(l, es[k].html)->Some_0;
        assert(l[j].template_html == ts[i].html);
    }
    assert forall|j: int| 0 <= j < m.len() implies (#[trigger] m[j]).kind == OptimizationKind::ManyDynamicSlots
        && html_count(ts, m[j].template_html) > 0 && ts[first_index(ts, m[j].template_html)].slots.len() > 10 by {
        lemma_find_entry_some(es, m[j].template_html);
        let k = find_entry(es, m[j].template_html)->Some_0;
        assert(es[k].count >= 1);
    }
    assert forall|i: int|
        0 <= i < ts.len() && ts[first_index(ts, (#[trigger] ts[i]).html)].slots.len() > 10 implies exists|j: int|
            0 <= j < m.len() && (#[trigger] m[j]).template_html == ts[i].html by {
        lemma_find_entry_some(es, ts[i].html);
        let k = find_entry(es, ts[i].html)->Some_0;
        assert(many_cond(es[k]));
        lemma_find_suggestion_some(m, es[k].html);
        let j = find_suggestion(m, es[k].html)->Some_0;
        assert(m[j].template_html == ts[i].html);
    }
}

/// The HTML sizes of the templates of `ts` whose HTML was not recorded
/// before them: each distinct HTML once.
pub open spec fn first_bytes(ts: Seq<TemplateV>) -> nat
    decreases ts.len(),
{
    if ts.len() == 0 {
        0
    } else {
        first_bytes(ts.drop_last()) + if html_count(ts.drop_last(), ts.last().html) == 0 {
            byte_len(ts.last().html)
        } else {
            0
        }
    }
}

/// How many templates of `ts` without dynamic slots are the first with
/// their HTML.
pub open spec fn first_static(ts: Seq<TemplateV>) -> nat
    decreases ts.len(),
{
    if ts.len() == 0 {
        0
    } else {
        first_static(ts.drop_last()) + if html_count(ts.drop_last(), ts.last().html) == 0
            && ts.last().slots.len() == 0 {
            1nat
        } else {
            0nat
        }
    }
}

/// The statistics of a recorded sequence of templates: every recording
/// counts; there is one distinct template per distinct HTML; the
/// deduplicated size and the static count go by the first template
/// recorded with each HTML.
pub proof fn law_stats_of_sequence(ts: Seq<TemplateV>, s: TemplateStats)
    requires
        stats_of(recorded_all(ts), s),
    ensures
        s.total_templates == ts.len(),
        s.unique_templates == ts.map_values(|t: TemplateV| t.html).to_set().len(),
        s.reused_templates == s.total_templates - s.unique_templates,
        s.total_html_size == html_bytes(ts),
        s.deduplicated_html_size == first_bytes(ts),
        s.static_templates == first_static(ts),
        s.static_templates + s.dynamic_templates == s.unique_templates,
{
    law_recorded_sequence(ts);
    lemma_first_sums(ts);
    lemma_static_count_le(recorded_all(ts));
}

proof fn lemma_static_count_le(es: Seq<EntryV>)
    ensures
        static_count(es) <= es.len(),
    decreases es.len(),
{
    if es.len() > 0 {
        lemma_static_count_le(es.drop_last());
    }
}

proof fn lemma_first_sums(ts: Seq<TemplateV>)
    ensures
        distinct_bytes(recorded_all(ts)) == first_bytes(ts),
        static_count(recorded_all(ts)) == first_static(ts),
    decreases ts.len(),
{
    if ts.len() > 0 {
        let p = ts.drop_last();
        let t = ts.last();
        lemma_first_sums(p);
        lemma_entries_of_sequence(p);
        let es0 = recorded_all(p);
        law_recording_deduplicates(es0, t);
        lemma_find_entry_some(es0, t.html);
        lemma_first_index(p, t.html);
        match find_entry(es0, t.html) {
            Some(i) => {
                assert(es0[i].count >= 1);
                assert(html_count(p, t.html) > 0);
                lemma_sums_after_count_up(es0, i);
            },
            None => {
                if html_count(p, t.html) > 0 {
                    let j = first_index(p, t.html);
                    assert(find_entry(es0, p[j].html) is Some);
                }
                let es = es0.push(EntryV { html: t.html, count: 1, template: t });
                assert(es.drop_last() =~= es0);
            },
        }
    }
}

} // verus!
