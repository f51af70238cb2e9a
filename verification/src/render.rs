//! The template renderer: a read-only set of named templates, registered at
//! startup, rendered by substituting bound values for `{{field}}` markers.
//! The engine that stores and substitutes the templates is `tera`, trusted
//! through the items below; which names are registered, which bodies they
//! carry, and what a successful render returns are tracked and proved here.

use vstd::prelude::*;
use crate::template::{
    tpl_wf, tpl_vars, subst, all_markers_bound, map_of_pairs, binds_view, names_view,
    scan_template, all_bound, lemma_map_of_pairs_dom, lemma_map_of_pairs_last,
};
use crate::text::{chars_eq, clone_chars, string_of_chars};

verus! {

#[verifier::external_type_specification]
#[verifier::external_body]
pub struct ExTera(tera::Tera);

#[verifier::external_type_specification]
#[verifier::external_body]
pub struct ExTeraError(tera::Error);

#[verifier::external_type_specification]
#[verifier::external_body]
pub struct ExContext(tera::Context);

/// The templates an engine instance holds: name to body.
pub uninterp spec fn templates_of(t: tera::Tera) -> Map<Seq<char>, Seq<char>>;

/// The bindings a render context holds: field name to value.
pub uninterp spec fn bindings_of(c: tera::Context) -> Map<Seq<char>, Seq<char>>;

/// Whether an engine instance escapes nothing when it renders.
pub uninterp spec fn escape_disabled(t: tera::Tera) -> bool;

/// Whether the engine's template parser accepts this source text. A body in
/// the marker grammar is not always accepted: a marker name the expression
/// grammar claims as an operator can be refused, so acceptance keeps its own
/// name, and success is owed only under it.
pub uninterp spec fn tera_accepts(body: Seq<char>) -> bool;

/// Relies on `tera::Tera::default`: a fresh engine instance holds no
/// templates.
#[verifier::external_body]
fn tera_new() -> (r: tera::Tera)
    ensures
        forall|k: Seq<char>| !templates_of(r).contains_key(k),
{
    tera::Tera::default()
}

/// Relies on `tera::Tera::autoescape_on` with no suffixes: rendered values
/// are no longer escaped, whatever the template's name; the template set is
/// untouched.
#[verifier::external_body]
fn tera_plain(t: &mut tera::Tera)
    ensures
        templates_of(*final(t)) == templates_of(*old(t)),
        escape_disabled(*final(t)),
{
    t.autoescape_on(Vec::new());
}

/// Relies on `tera::Tera::add_raw_template`: on success the body is stored
/// under the name, replacing any previous body; on an error the set either
/// is untouched (the body did not parse) or has gained exactly that entry
/// (a later startup check refused it). Where every held body and the new one
/// are in the marker grammar — so none extends a parent or imports macros —
/// and the parser accepts the new one, the call succeeds.
#[verifier::external_body]
fn tera_add(t: &mut tera::Tera, name: &str, body: &str) -> (r: Result<(), tera::Error>)
    ensures
        r is Ok ==> templates_of(*final(t)) == templates_of(*old(t)).insert(name@, body@),
        r is Err ==> templates_of(*final(t)) == templates_of(*old(t)) || templates_of(*final(t))
            == templates_of(*old(t)).insert(name@, body@),
        escape_disabled(*final(t)) == escape_disabled(*old(t)),
        (forall|k: Seq<char>|
            templates_of(*old(t)).contains_key(k) ==> tpl_wf(
                #[trigger] templates_of(*old(t))[k],
            )) && tpl_wf(body@) && tera_accepts(body@) ==> r is Ok,
{
    t.add_raw_template(name, body)
}

/// Relies on `tera::Context::new` and `tera::Context::insert` with string
/// values: the context built from a binding list binds each key to its value
/// text, a later pair for the same key winning.
#[verifier::external_body]
fn ctx_of(binds: &Vec<(Vec<char>, String)>) -> (r: tera::Context)
    ensures
        bindings_of(r) == map_of_pairs(binds_view(binds@)),
{
    let mut c = tera::Context::new();
    for p in binds.iter() {
        c.insert(p.0.iter().collect::<String>(), &p.1);
    }
    c
}

/// Relies on `tera::Tera::render`: an unknown name is an error, and with
/// escaping off, a stored body within the marker grammar, all of whose
/// markers are bound, renders to exactly the substitution of the bound
/// values: the held template parsed to text and plain lookups only, every
/// lookup is bound, and writing the output cannot fail, so success is owed.
#[verifier::external_body]
fn tera_render(t: &tera::Tera, name: &str, c: &tera::Context) -> (r: Result<String, tera::Error>)
    ensures
        !templates_of(*t).contains_key(name@) ==> r is Err,
        escape_disabled(*t) && templates_of(*t).contains_key(name@) && tpl_wf(
            templates_of(*t)[name@],
        ) && all_markers_bound(templates_of(*t)[name@], bindings_of(*c)) ==> r is Ok,
        escape_disabled(*t) && templates_of(*t).contains_key(name@) && tpl_wf(
            templates_of(*t)[name@],
        ) && all_markers_bound(templates_of(*t)[name@], bindings_of(*c)) ==> (r matches Ok(s) ==> s@
            == subst(templates_of(*t)[name@], bindings_of(*c))),
{
    t.render(name, c)
}

/// Why registering or rendering a template failed.
#[derive(Clone, Copy, Debug, PartialEq, Eq, Structural)]
pub enum TemplateFailure {
    /// The name was registered before.
    AlreadyRegistered,
    /// The body is outside the marker grammar.
    Malformed,
    /// No template of that name is registered.
    Unregistered,
    /// A marker of the body has no binding.
    MissingBinding,
    /// The engine refused a registration these contracts do not rule out.
    Engine,
}

/// The view of the registration list.
pub open spec fn entries_view(ps: Seq<(Vec<char>, Vec<char>)>) -> Seq<(Seq<char>, Seq<char>)> {
    ps.map_values(|p: (Vec<char>, Vec<char>)| (p.0@, p.1@))
}

/// The renderer: the trusted engine plus its own record of what was
/// registered, which the contracts speak about.
pub struct Renderer {
    engine: tera::Tera,
    entries: Vec<(Vec<char>, Vec<char>)>,
}

impl Renderer {
    /// The registered templates: name to body.
    pub closed spec fn templates(&self) -> Map<Seq<char>, Seq<char>> {
        map_of_pairs(entries_view(self.entries@))
    }

    /// The engine escapes nothing, every registered template is well formed
    /// and is held by the engine under the same name with the same body, and
    /// the engine holds nothing outside the marker grammar.
    pub closed spec fn wf(&self) -> bool {
        &&& escape_disabled(self.engine)
        &&& forall|k: Seq<char>| #[trigger]
            self.templates().contains_key(k) ==> templates_of(self.engine).contains_key(k)
                && templates_of(self.engine)[k] == self.templates()[k] && tpl_wf(
                self.templates()[k],
            )
        &&& forall|k: Seq<char>|
            templates_of(self.engine).contains_key(k) ==> tpl_wf(
                #[trigger] templates_of(self.engine)[k],
            )
    }

    /// A renderer with no templates.
    pub fn new() -> (r: Renderer)
        ensures
            r.wf(),
            r.templates() == Map::<Seq<char>, Seq<char>>::empty(),
    {
        let mut engine = tera_new();
        tera_plain(&mut engine);
        let r = Renderer { engine, entries: Vec::new() };
        proof {
            assert(entries_view(r.entries@) =~= Seq::<(Seq<char>, Seq<char>)>::empty());
        }
        r
    }

    /// Whether a template of this name is registered.
    pub fn contains_name(&self, name: &Vec<char>) -> (r: bool)
        ensures
            r == self.templates().contains_key(name@),
    {
        let ghost ps = entries_view(self.entries@);
        let mut i: usize = 0;
        while i < self.entries.len()
            invariant
                i <= self.entries@.len(),
                ps == entries_view(self.entries@),
                ps.len() == self.entries@.len(),
                forall|j: int| 0 <= j < i ==> ps[j].0 != name@,
            decreases self.entries.len() - i,
        {
            assert(ps[i as int].0 == self.entries@[i as int].0@);
            if chars_eq(&self.entries[i].0, name) {
                proof {
                    lemma_map_of_pairs_dom(ps, name@);
                }
                return true;
            }
            i += 1;
        }
        proof {
            lemma_map_of_pairs_dom(ps, name@);
        }
        false
    }

    /// The registered body of this name, if any.
    fn body_of(&self, name: &Vec<char>) -> (r: Option<&Vec<char>>)
        ensures
            r is Some <==> self.templates().contains_key(name@),
            r matches Some(b) ==> b@ == self.templates()[name@],
    {
        let ghost ps = entries_view(self.entries@);
        let mut i: usize = self.entries.len();
        while i > 0
            invariant
                i <= self.entries@.len(),
                ps == entries_view(self.entries@),
                ps.len() == self.entries@.len(),
                forall|j: int| i <= j < ps.len() ==> ps[j].0 != name@,
            decreases i,
        {
            i -= 1;
            assert(ps[i as int].0 == self.entries@[i as int].0@);
            assert(ps[i as int].1 == self.entries@[i as int].1@);
            if chars_eq(&self.entries[i].0, name) {
                proof {
                    lemma_map_of_pairs_last(ps, i as int);
                }
                return Some(&self.entries[i].1);
            }
        }
        proof {
            lemma_map_of_pairs_dom(ps, name@);
        }
        None
    }

    /// Registers a template. Refused if the name is taken or the body falls
    /// outside the marker grammar; on success the body is stored under the
    /// name. An `Engine` error leaves the registered set unchanged.
    pub fn register(&mut self, name: &Vec<char>, body: &Vec<char>) -> (r: Result<
        (),
        TemplateFailure,
    >)
        requires
            old(self).wf(),
        ensures
            final(self).wf(),
            old(self).templates().contains_key(name@) ==> r == Err::<(), TemplateFailure>(
                TemplateFailure::AlreadyRegistered,
            ),
            !old(self).templates().contains_key(name@) && !tpl_wf(body@) ==> r == Err::<
                (),
                TemplateFailure,
            >(TemplateFailure::Malformed),
            r is Ok ==> !old(self).templates().contains_key(name@) && tpl_wf(body@)
                && final(self).templates() == old(self).templates().insert(name@, body@),
            r is Err ==> final(self).templates() == old(self).templates(),
            !old(self).templates().contains_key(name@) && tpl_wf(body@) ==> r is Ok || r == Err::<
                (),
                TemplateFailure,
            >(TemplateFailure::Engine),
            !old(self).templates().contains_key(name@) && tpl_wf(body@) && tera_accepts(body@)
                ==> r is Ok,
    {
        if self.contains_name(name) {
            return Err(TemplateFailure::AlreadyRegistered);
        }
        let scanned = scan_template(body);
        if scanned.is_none() {
            return Err(TemplateFailure::Malformed);
        }
        let name_s = string_of_chars(name);
        let body_s = string_of_chars(body);
        let added = tera_add(&mut self.engine, name_s.as_str(), body_s.as_str());
        if added.is_err() {
            proof {
                assert forall|k: Seq<char>| #[trigger]
                    self.templates().contains_key(k) implies templates_of(
                    self.engine,
                ).contains_key(k) && templates_of(self.engine)[k] == self.templates()[k] && tpl_wf(
                    self.templates()[k],
                ) by {
                    assert(k != name@);
                }
                assert forall|k: Seq<char>|
                    templates_of(self.engine).contains_key(k) implies tpl_wf(
                    #[trigger] templates_of(self.engine)[k],
                ) by {
                    if templates_of(self.engine) != templates_of(old(self).engine) && k == name@ {
                    } else {
                        assert(templates_of(old(self).engine).contains_key(k));
                    }
                }
            }
            return Err(TemplateFailure::Engine);
        }
        let ghost before = entries_view(self.entries@);
        self.entries.push((clone_chars(name), clone_chars(body)));
        proof {
            let after = entries_view(self.entries@);
            assert(after.drop_last() =~= before);
            assert(after.last() == (name@, body@));
            assert(final(self).templates() == old(self).templates().insert(name@, body@));
            assert forall|k: Seq<char>| #[trigger]
                self.templates().contains_key(k) implies templates_of(self.engine).contains_key(k)
                && templates_of(self.engine)[k] == self.templates()[k] && tpl_wf(
                self.templates()[k],
            ) by {
                if k != name@ {
                    assert(old(self).templates().contains_key(k));
                }
            }
            assert forall|k: Seq<char>|
                templates_of(self.engine).contains_key(k) implies tpl_wf(
                #[trigger] templates_of(self.engine)[k],
            ) by {
                if k != name@ {
                    assert(templates_of(old(self).engine).contains_key(k));
                }
            }
        }
        Ok(())
    }

    /// Renders the named template with the given bindings. An unregistered
    /// name and an unbound marker are refused exactly; a registered name with
    /// every marker bound renders, and to exactly the substitution of the
    /// bound values into the stored body.
    pub fn render(&self, name: &Vec<char>, binds: &Vec<(Vec<char>, String)>) -> (r: Result<
        String,
        TemplateFailure,
    >)
        requires
            self.wf(),
        ensures
            !self.templates().contains_key(name@) ==> r == Err::<String, TemplateFailure>(
                TemplateFailure::Unregistered,
            ),
            self.templates().contains_key(name@) && !all_markers_bound(
                self.templates()[name@],
                map_of_pairs(binds_view(binds@)),
            ) ==> r == Err::<String, TemplateFailure>(TemplateFailure::MissingBinding),
            r matches Ok(s) ==> self.templates().contains_key(name@) && all_markers_bound(
                self.templates()[name@],
                map_of_pairs(binds_view(binds@)),
            ) && s@ == subst(self.templates()[name@], map_of_pairs(binds_view(binds@))),
            self.templates().contains_key(name@) && all_markers_bound(
                self.templates()[name@],
                map_of_pairs(binds_view(binds@)),
            ) ==> r is Ok,
    {
        let body = match self.body_of(name) {
            Some(b) => b,
            None => {
                return Err(TemplateFailure::Unregistered);
            },
        };
        let names = match scan_template(body) {
            Some(ns) => ns,
            None => {
                assert(false);
                return Err(TemplateFailure::Engine);
            },
        };
        if !all_bound(&names, binds) {
            assert(!all_markers_bound(self.templates()[name@], map_of_pairs(binds_view(binds@))))
                by {
                assert(names_view(names@) == tpl_vars(body@));
            }
            return Err(TemplateFailure::MissingBinding);
        }
        assert(all_markers_bound(self.templates()[name@], map_of_pairs(binds_view(binds@)))) by {
            assert(names_view(names@) == tpl_vars(body@));
        }
        let ctx = ctx_of(binds);
        let name_s = string_of_chars(name);
        match tera_render(&self.engine, name_s.as_str(), &ctx) {
            Ok(s) => Ok(s),
            Err(_) => {
                proof {
                    assert(false);
                }
                Err(TemplateFailure::Engine)
            },
        }
    }
}

} // verus!
