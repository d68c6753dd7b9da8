//! Rendering: a template, a catalog and a context are turned into text.

pub mod call_stack;
pub mod for_loop;
pub mod laws;
pub mod macros;
pub mod processor;
pub mod semantics;
pub mod square_brackets;
pub mod stack_frame;

use vstd::prelude::*;
use crate::catalog::{texts_view, Catalog};
use crate::context::Context;
use crate::errors::{Error, ErrorModel};
use crate::registry::{AttachedFunctions, Filter, Function, RegistryModel};
use crate::renderer::processor::{error_view, initial_stack, Processor};
use crate::renderer::semantics::{render_nodes, render_template, Env, Outcome};
use crate::template::{Template, TemplateModel};
use crate::utils::{ends_with, has_suffix};

verus! {

/// How deep macro calls may nest in one render.
pub const MAX_MACRO_DEPTH: usize = 64;

/// The text that decides on escaping: the template's path if it has one, its
/// name if it has none.
pub open spec fn escaping_target(template: TemplateModel) -> Seq<char> {
    match template.path {
        Some(path) => path,
        None => template.name,
    }
}

/// Whether the output of a template is escaped: whether its path, or else its
/// name, ends with one of the suffixes.
pub open spec fn escapes(template: TemplateModel, suffixes: Seq<Seq<char>>) -> bool {
    exists|i: int| 0 <= i < suffixes.len() && has_suffix(escaping_target(template), #[trigger] suffixes[i])
}

/// What a text or a failure denotes.
pub open spec fn text_view(r: Result<String, Error>) -> Result<Seq<char>, ErrorModel> {
    match r {
        Ok(text) => Ok(text@),
        Err(error) => Err(error@),
    }
}

/// A registry without callables.
pub open spec fn nothing_attached() -> RegistryModel {
    RegistryModel { filters: Seq::empty(), functions: Seq::empty() }
}

/// Renders one template against one context.
pub struct Renderer<'a, F, G> {
    /// The template to render.
    template: &'a Template,
    /// The other templates and the registered callables.
    catalog: &'a Catalog<F, G>,
    /// The data that the template reads.
    context: &'a Context,
    /// Whether substitutions are escaped.
    should_escape: bool,
}

impl<'a, F: Filter, G: Function> Renderer<'a, F, G> {
    /// What a render with the callables `attached` reads.
    pub closed spec fn env(&self, attached: RegistryModel) -> Env {
        Env {
            template: self.template@,
            catalog: self.catalog@,
            context: self.context@,
            attached,
            escape: self.should_escape,
        }
    }

    /// What a render with the callables `attached` comes to: the text written
    /// and the failure that ended it, if one did.
    pub open spec fn outcome(&self, attached: RegistryModel) -> Outcome {
        render_nodes(
            self.env(attached),
            self.env(attached).template.nodes,
            0,
            initial_stack(),
            MAX_MACRO_DEPTH as nat,
        )
    }

    /// A renderer of `template`. Escaping is on if the template's path, or its
    /// name where it has no path, ends with one of the catalog's suffixes.
    pub fn new(template: &'a Template, catalog: &'a Catalog<F, G>, context: &'a Context) -> (r:
        Renderer<'a, F, G>)
        ensures
            forall|attached: RegistryModel| #[trigger]
                r.env(attached) == (Env {
                    template: template@,
                    catalog: catalog@,
                    context: context@,
                    attached,
                    escape: escapes(template@, catalog@.autoescape_suffixes),
                }),
    {
        let target: &String = match &template.path {
            Some(path) => path,
            None => &template.name,
        };
        let ghost suffixes = texts_view(catalog.autoescape_suffixes@);
        let mut should_escape = false;
        let mut i: usize = 0;
        while i < catalog.autoescape_suffixes.len() && !should_escape
            invariant
                i <= catalog.autoescape_suffixes.len(),
                suffixes == texts_view(catalog.autoescape_suffixes@),
                target@ == escaping_target(template@),
                should_escape ==> escapes(template@, suffixes),
                !should_escape ==> forall|j: int|
                    0 <= j < i ==> !has_suffix(target@, #[trigger] suffixes[j]),
            decreases catalog.autoescape_suffixes.len() - i,
        {
            if ends_with(target.as_str(), catalog.autoescape_suffixes[i].as_str()) {
                assert(has_suffix(target@, suffixes[i as int]));
                should_escape = true;
            }
            i += 1;
        }
        Renderer { template, catalog, context, should_escape }
    }

    /// Renders the template into a fresh string: the whole text, or the first
    /// failure.
    pub fn render(&self) -> (r: Result<String, Error>)
        ensures
            text_view(r) == render_template(self.env(nothing_attached()), MAX_MACRO_DEPTH as nat),
    {
        let mut output = String::new();
        match self.render_to(&mut output) {
            Ok(()) => {
                assert(output@ =~= self.outcome(nothing_attached()).text);
                Ok(output)
            },
            Err(error) => Err(error),
        }
    }

    /// Renders the template onto the end of `output`: the text of the nodes in
    /// order, up to the first failure.
    pub fn render_to(&self, output: &mut String) -> (r: Result<(), Error>)
        ensures
            final(output)@ == old(output)@ + self.outcome(nothing_attached()).text,
            error_view(r) == self.outcome(nothing_attached()).error,
    {
        let attached: AttachedFunctions<F, G> = AttachedFunctions::new();
        let mut processor = Processor::new(
            self.template,
            self.catalog,
            self.context,
            self.should_escape,
            &attached,
            MAX_MACRO_DEPTH,
        );
        processor.render(output)
    }

    /// Renders the template into a fresh string, with the callables `attached`
    /// in front of the catalog's.
    pub fn render_with_attached(&self, attached: AttachedFunctions<F, G>) -> (r: Result<
        String,
        Error,
    >)
        ensures
            text_view(r) == render_template(self.env(attached@), MAX_MACRO_DEPTH as nat),
    {
        let mut processor = Processor::new(
            self.template,
            self.catalog,
            self.context,
            self.should_escape,
            &attached,
            MAX_MACRO_DEPTH,
        );
        let mut output = String::new();
        match processor.render(&mut output) {
            Ok(()) => {
                assert(output@ =~= self.outcome(attached@).text);
                Ok(output)
            },
            Err(error) => Err(error),
        }
    }
}

} // verus!
