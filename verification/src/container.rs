//! The list-container handler. Entering an unordered list, ordered list
//! or menu list saves the current ordered-list numbering context and
//! installs the container's own (the parsed `start` attribute of an
//! ordered list, unset otherwise); leaving restores the saved context.
//! Entry and exit each bracket the list with newline separation.

use vstd::prelude::*;

use crate::element::spec_attr_value;
use crate::element::ElementInfo;
use crate::element::element_info;
use crate::printer::StructuredPrinter;
use crate::text::parse_u32;
use crate::text::parse_u32_spec;
use crate::text::string_eq_str;

verus! {

/// The numbering context a container installs on entry: the parsed
/// `start` attribute of an ordered list, unset for everything else
/// (unordered and menu containers, a missing attribute, or one that is
/// not a decimal integer in range).
pub open spec fn container_start(e: ElementInfo) -> Option<u32> {
    if e.name@ == "ol"@ {
        match spec_attr_value(e.attrs@, "start"@) {
            Some(v) => parse_u32_spec(v),
            None => None,
        }
    } else {
        None
    }
}

/// Entering a container maps the numbering context `ctx` to the pair of
/// the installed context and the saved one.
pub open spec fn container_enter(ctx: Option<u32>, e: ElementInfo) -> (Option<u32>, Option<u32>) {
    (container_start(e), ctx)
}

/// Leaving a container restores the context saved on entry.
pub open spec fn container_exit(saved: Option<u32>) -> Option<u32> {
    saved
}

/// Handler for the list-container elements: "ul", "ol" and "menu".
/// Its entry and exit hooks must be called in matched pairs, exit after
/// entry, once each per container instance.
#[derive(Default)]
pub struct ListHandler {
    /// The numbering context found on entry, restored on exit.
    pub saved_last_ol_start_index: Option<u32>,
}

impl ListHandler {
    /// Entry hook, on the element reduced to its tag name and
    /// attributes: saves the numbering context, installs the
    /// container's own, and separates the list from preceding output
    /// with a newline.
    pub fn handle_element(
        &mut self,
        tag: &ElementInfo,
        printer: &mut StructuredPrinter,
        ctx: &mut Option<u32>,
    )
        ensures
            *final(ctx) == container_enter(*old(ctx), *tag).0,
            final(self).saved_last_ol_start_index == container_enter(*old(ctx), *tag).1,
            final(printer).data@ == old(printer).data@ + seq!['\n'],
            final(printer).parent_chain == old(printer).parent_chain,
            final(printer).siblings == old(printer).siblings,
    {
        self.saved_last_ol_start_index = *ctx;
        if string_eq_str(&tag.name, "ol") {
            *ctx = match crate::element::attr_value(&tag.attrs, "start") {
                Some(v) => parse_u32(v.as_str()),
                None => None,
            };
        } else {
            *ctx = None;
        }
        printer.insert_newline();
    }

    /// Entry hook on a markup tree node: reduces the node to its
    /// element data and proceeds as `handle_element`; a node that is no
    /// element installs the unset context, like a container without a
    /// `start` attribute.
    pub fn handle(
        &mut self,
        tag: &markup5ever_rcdom::Handle,
        printer: &mut StructuredPrinter,
        ctx: &mut Option<u32>,
    )
        ensures
            final(self).saved_last_ol_start_index == *old(ctx),
            final(printer).data@ == old(printer).data@ + seq!['\n'],
            final(printer).parent_chain == old(printer).parent_chain,
            final(printer).siblings == old(printer).siblings,
    {
        match element_info(tag) {
            Some(e) => self.handle_element(&e, printer, ctx),
            None => {
                let e = ElementInfo { name: String::new(), attrs: Vec::new() };
                self.handle_element(&e, printer, ctx);
            },
        }
    }

    /// Exit hook: restores the numbering context saved on entry and
    /// separates the list from following output with a blank line.
    pub fn after_handle(&mut self, printer: &mut StructuredPrinter, ctx: &mut Option<u32>)
        ensures
            *final(ctx) == container_exit(old(self).saved_last_ol_start_index),
            *final(self) == *old(self),
            final(printer).data@ == old(printer).data@ + seq!['\n', '\n'],
            final(printer).parent_chain == old(printer).parent_chain,
            final(printer).siblings == old(printer).siblings,
    {
        *ctx = self.saved_last_ol_start_index;
        printer.insert_newline();
        printer.insert_newline();
        assert(final(printer).data@ =~= old(printer).data@ + seq!['\n', '\n']);
    }
}

} // verus!
