//! What a render draws on besides its own template: the other templates, the
//! registered callables and the rule that decides on escaping.

use vstd::prelude::*;
use crate::registry::{Filter, Function, Registry, RegistryModel};
use crate::template::{Template, TemplateModel};

verus! {

/// The templates of a project with the callables registered for them and the
/// name endings of the templates whose output is escaped.
pub struct Catalog<F, G> {
    pub templates: Vec<Template>,
    pub autoescape_suffixes: Vec<String>,
    pub registry: Registry<F, G>,
}

/// What a catalog denotes.
pub struct CatalogModel {
    pub templates: Seq<TemplateModel>,
    pub autoescape_suffixes: Seq<Seq<char>>,
    pub registry: RegistryModel,
}

/// The models of a list of templates.
pub open spec fn templates_view(templates: Seq<Template>) -> Seq<TemplateModel> {
    Seq::new(templates.len(), |i: int| templates[i]@)
}

/// The characters of each string of a list.
pub open spec fn texts_view(texts: Seq<String>) -> Seq<Seq<char>> {
    Seq::new(texts.len(), |i: int| texts[i]@)
}

impl<F: Filter, G: Function> View for Catalog<F, G> {
    type V = CatalogModel;

    open spec fn view(&self) -> CatalogModel {
        CatalogModel {
            templates: templates_view(self.templates@),
            autoescape_suffixes: texts_view(self.autoescape_suffixes@),
            registry: self.registry@,
        }
    }
}

impl<F: Filter, G: Function> Catalog<F, G> {
    /// A catalog without templates, callables or escaping.
    pub fn new() -> (r: Self)
        ensures
            r@ == (CatalogModel {
                templates: Seq::empty(),
                autoescape_suffixes: Seq::empty(),
                registry: RegistryModel { filters: Seq::empty(), functions: Seq::empty() },
            }),
    {
        let r = Catalog {
            templates: Vec::new(),
            autoescape_suffixes: Vec::new(),
            registry: Registry::new(),
        };
        assert(r@.templates =~= Seq::empty());
        assert(r@.autoescape_suffixes =~= Seq::empty());
        r
    }

    /// Adds a template and returns its position, by which macros name their
    /// owner.
    pub fn add_template(&mut self, template: Template) -> (index: usize)
        ensures
            index == old(self)@.templates.len(),
            final(self)@.templates == old(self)@.templates.push(template@),
            final(self)@.autoescape_suffixes == old(self)@.autoescape_suffixes,
            final(self)@.registry == old(self)@.registry,
    {
        let index = self.templates.len();
        self.templates.push(template);
        assert(self@.templates =~= old(self)@.templates.push(template@));
        index
    }

    /// Turns escaping on for the templates whose path or name ends in `suffix`.
    pub fn add_autoescape_suffix(&mut self, suffix: &str)
        ensures
            final(self)@.autoescape_suffixes == old(self)@.autoescape_suffixes.push(suffix@),
            final(self)@.templates == old(self)@.templates,
            final(self)@.registry == old(self)@.registry,
    {
        self.autoescape_suffixes.push(suffix.to_owned());
        assert(self@.autoescape_suffixes =~= old(self)@.autoescape_suffixes.push(suffix@));
    }
}

} // verus!
