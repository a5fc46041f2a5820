//! Default names for the files each kind of workspace exports.
use vstd::prelude::*;
use vstd::string::StringExecFns;

use crate::data::{sanitize_file_name, sanitized_file_name};
use crate::persistence::{database_lookup, database_store, Persistence, PersistentKey, PersistentValue};
use crate::workspace::{default_file_name_of, template_id_of, WorkspaceTemplate};

verus! {

/// Keys under which naming conventions are stored.
enum PersistentData {
    NamingConventionID,
}

impl PersistentKey for PersistentData {
    open spec fn key_id(&self) -> Seq<char> {
        naming_convention_id()
    }

    fn get_id(&self) -> (r: &str) {
        match self {
            PersistentData::NamingConventionID => "naming-convention",
        }
    }
}

/// The id under which naming conventions are stored.
pub open spec fn naming_convention_id() -> Seq<char> {
    "naming-convention"@
}

/// The position of each template's convention.
pub open spec fn template_slot(t: WorkspaceTemplate) -> int {
    match t {
        WorkspaceTemplate::Blank => 0,
        WorkspaceTemplate::Token => 1,
        WorkspaceTemplate::Portrait => 2,
    }
}

/// The convention used for a template when none is stored.
pub open spec fn default_convention(t: WorkspaceTemplate) -> Seq<char> {
    "$project_name"@ + default_file_name_of(t)
}

/// The convention a template takes from stored data `db`: the stored string
/// if there is one, else the default.
pub open spec fn convention_from(
    db: Map<Seq<char>, Map<Seq<char>, PersistentValue>>,
    t: WorkspaceTemplate,
) -> Seq<char> {
    match database_lookup(db, naming_convention_id(), template_id_of(t)) {
        Some(PersistentValue::String(s)) => s@,
        _ => default_convention(t),
    }
}

/// Structure holds information about default values for names used throughout the program
#[derive(Debug)]
pub struct NamingConvention {
    convention: Vec<String>,
    project_name: String,
}

impl NamingConvention {
    pub const KEYWORD_PROJECT: &'static str = "$project_name";

    /// Well-formedness: there is one convention for each template.
    pub closed spec fn wf(&self) -> bool {
        self.convention@.len() == 3
    }

    /// The naming convention for template `t`.
    pub closed spec fn convention_of(&self, t: WorkspaceTemplate) -> Seq<char> {
        self.convention@[template_slot(t)]@
    }

    /// The name of the project, which stands in for `$project_name` in exported names.
    pub closed spec fn project(&self) -> String {
        self.project_name
    }

    /// The name of the project.
    pub fn project_name(&self) -> (r: &str)
        ensures
            r@ == self.project()@,
    {
        self.project_name.as_str()
    }

    /// Replaces the name of the project.
    pub fn set_project_name(&mut self, name: String)
        requires
            old(self).wf(),
        ensures
            final(self).wf(),
            final(self).project() == name,
            forall|t: WorkspaceTemplate| #[trigger] final(self).convention_of(t) == old(self).convention_of(t),
    {
        self.project_name = name;
    }

    fn slot(template: &WorkspaceTemplate) -> (i: usize)
        ensures
            i == template_slot(*template),
    {
        match template {
            WorkspaceTemplate::Blank => 0,
            WorkspaceTemplate::Token => 1,
            WorkspaceTemplate::Portrait => 2,
        }
    }

    /// Constructs new naming convention, loading default values from the cache if present
    pub fn new(cache: &Persistence) -> (r: Self)
        requires
            cache.wf(),
        ensures
            r.wf(),
            forall|t: WorkspaceTemplate| #[trigger] r.convention_of(t) == convention_from(cache.view(), t),
            r.project()@ == Seq::<char>::empty(),
    {
        proof { reveal_strlit("$project_name"); }
        let mut convention: Vec<String> = Vec::new();
        let mut i: usize = 0;
        while i < 3
            invariant
                i <= 3,
                cache.wf(),
                convention@.len() == i,
                forall|j: int| 0 <= j < i ==> (#[trigger] convention@[j])@ == convention_from(
                    cache.view(),
                    WorkspaceTemplate::ALL@[j],
                ),
            decreases 3 - i,
        {
            let wt = WorkspaceTemplate::ALL[i];
            let name = match cache.get(PersistentData::NamingConventionID, wt) {
                Some(PersistentValue::String(n)) => n.clone(),
                _ => {
                    let mut n = String::from_str(NamingConvention::KEYWORD_PROJECT);
                    n.append(wt.get_default_file_name());
                    n
                },
            };
            convention.push(name);
            i = i + 1;
        }
        let r = Self { convention, project_name: String::new() };
        assert forall|t: WorkspaceTemplate| #[trigger] r.convention_of(t) == convention_from(cache.view(), t) by {
            assert(WorkspaceTemplate::ALL@[template_slot(t)] == t);
        }
        r
    }

    /// Returns a copy of the naming convention for specified template
    pub fn get(&self, template: &WorkspaceTemplate) -> (r: String)
        requires
            self.wf(),
        ensures
            r@ == self.convention_of(*template),
    {
        self.convention[Self::slot(template)].clone()
    }

    /// Borrows the naming convention for specified template
    pub fn check(&self, template: &WorkspaceTemplate) -> (r: &str)
        requires
            self.wf(),
        ensures
            r@ == self.convention_of(*template),
    {
        self.convention[Self::slot(template)].as_str()
    }

    /// Sets naming convention for specified template, saving it to cache as well
    pub fn set(&mut self, template: WorkspaceTemplate, name: String, cache: &mut Persistence)
        requires
            old(self).wf(),
            old(cache).wf(),
        ensures
            final(self).wf(),
            final(cache).wf(),
            final(self).convention_of(template) == sanitized_file_name(name@),
            forall|t: WorkspaceTemplate| t != template ==> #[trigger] final(self).convention_of(t) == old(self).convention_of(t),
            final(self).project() == old(self).project(),
            exists|s: String|
                s@ == sanitized_file_name(name@) && final(cache).view() == database_store(
                    old(cache).view(),
                    naming_convention_id(),
                    template_id_of(template),
                    PersistentValue::String(s),
                ),
    {
        let name = sanitize_file_name(name);
        let stored = name.clone();
        cache.set(PersistentData::NamingConventionID, template, PersistentValue::String(stored));
        let i = Self::slot(&template);
        self.convention.set(i, name);
        assert(final(cache).view() == database_store(
            old(cache).view(),
            naming_convention_id(),
            template_id_of(template),
            PersistentValue::String(stored),
        ));
    }
}

/// What is stored is what is found again: once a template's convention is
/// stored, a naming convention built from the storage takes the stored name
/// for that template, and the other templates keep the convention the
/// storage gave them before.
pub proof fn lemma_stored_convention_reloads(
    db: Map<Seq<char>, Map<Seq<char>, PersistentValue>>,
    template: WorkspaceTemplate,
    name: String,
    other: WorkspaceTemplate,
)
    ensures
        convention_from(
            database_store(db, naming_convention_id(), template_id_of(template), PersistentValue::String(name)),
            template,
        ) == name@,
        other != template ==> convention_from(
            database_store(db, naming_convention_id(), template_id_of(template), PersistentValue::String(name)),
            other,
        ) == convention_from(db, other),
{
    reveal_strlit("none");
    reveal_strlit("token");
    reveal_strlit("portrait");
    assert("none"@.len() == 4);
    assert("token"@.len() == 5);
    assert("portrait"@.len() == 8);
    if other != template {
        assert(template_id_of(other).len() != template_id_of(template).len());
    }
}

} // verus!
