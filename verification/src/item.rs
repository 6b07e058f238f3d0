//! The list-item handler. On entry it finds the governing list type
//! (the innermost ancestor that is a list container), starts a fresh
//! line if needed, and emits the item's prefix: a bullet for unordered
//! and menu lists, the ordinal for ordered lists. On exit it collapses
//! leading blank space of the item's rendered content and indents every
//! continuation line.

use vstd::prelude::*;

use crate::printer::StructuredPrinter;
use crate::printer::chain_view;
use crate::text::dec_digits;
use crate::text::pad_newlines;
use crate::text::push_decimal;
use crate::text::reindent;
use crate::text::string_eq_str;
use crate::text::strip_leading_blank;

verus! {

broadcast use vstd::std_specs::hash::group_hash_axioms;

/// Whether a tag name denotes a list container.
pub open spec fn is_list_tag(t: Seq<char>) -> bool {
    t == "ul"@ || t == "ol"@ || t == "menu"@
}

/// The governing list type for an item below the given ancestor chain:
/// the innermost ancestor whose tag is a list container, if any.
pub open spec fn governing_list(chain: Seq<Seq<char>>) -> Option<Seq<char>>
    decreases chain.len(),
{
    if chain.len() == 0 {
        None
    } else if is_list_tag(chain.last()) {
        Some(chain.last())
    } else {
        governing_list(chain.drop_last())
    }
}

/// The numeric offset the numbering context contributes to an ordinal:
/// the ordered list's start value, or 1 when the context is unset.
pub open spec fn item_offset(ctx: Option<u32>) -> nat {
    match ctx {
        Some(v) => v as nat,
        None => 1nat,
    }
}

/// The ordinal of the next item: the count of siblings already
/// processed at this depth plus the context's offset.
pub open spec fn item_ordinal(count: nat, ctx: Option<u32>) -> nat {
    count + item_offset(ctx)
}

/// The prefix an item is rendered with: its decimal ordinal, a period
/// and a space under an ordered list, a bullet and a space otherwise.
pub open spec fn item_prefix(gov: Seq<char>, ord: nat) -> Seq<char> {
    if gov == "ol"@ {
        dec_digits(ord) + seq!['.', ' ']
    } else {
        seq!['*', ' ']
    }
}

/// Whether the buffer's last line is unterminated, so that an item
/// prefix must first start a fresh line.
pub open spec fn needs_newline(data: Seq<char>) -> bool {
    data.len() == 0 || data.last() != '\n'
}

/// The width of the indentation run inserted after each newline of an
/// item's content: 3 under an ordered list (the width of "N. " for a
/// one-digit ordinal), 2 otherwise. Menu lists indent like unordered
/// lists, since their items carry the same two-character bullet prefix.
pub open spec fn continuation_padding(gov: Seq<char>) -> nat {
    if gov == "ol"@ {
        3nat
    } else {
        2nat
    }
}

/// Handler for the "li" item element.
#[derive(Default)]
pub struct ListItemHandler {
    /// Where in the output buffer this item's own content begins; set
    /// on entry, used by the exit hook.
    pub start_pos: usize,
    /// The governing list type found on entry; `None` when the item
    /// had no governing list, in which case both hooks do nothing.
    pub list_type: Option<String>,
}

impl ListItemHandler {
    /// Entry hook: finds the governing list type, starts a fresh line
    /// if the buffer does not end with one, emits the bullet or ordinal
    /// prefix, and records where the item's content will begin. An item
    /// with no list ancestor leaves everything unchanged.
    pub fn handle(&mut self, printer: &mut StructuredPrinter, ctx: &Option<u32>)
        requires
            governing_list(chain_view(old(printer).parent_chain@)) is Some ==> {
                &&& old(printer).siblings@.contains_key(old(printer).parent_chain@.len() as usize)
                &&& old(printer).siblings@[old(printer).parent_chain@.len() as usize]
                    + item_offset(*ctx) <= usize::MAX
            },
        ensures
            governing_list(chain_view(old(printer).parent_chain@)) is None ==> {
                &&& *final(self) == *old(self)
                &&& *final(printer) == *old(printer)
            },
            governing_list(chain_view(old(printer).parent_chain@)) matches Some(g) ==> {
                let depth = old(printer).parent_chain@.len() as usize;
                let ord = item_ordinal(old(printer).siblings@[depth] as nat, *ctx);
                &&& final(self).list_type matches Some(t) && t@ == g
                &&& final(printer).data@ == old(printer).data@ + (if needs_newline(
                    old(printer).data@,
                ) {
                    seq!['\n']
                } else {
                    Seq::<char>::empty()
                }) + item_prefix(g, ord)
                &&& final(self).start_pos == final(printer).data@.len()
                &&& final(printer).parent_chain == old(printer).parent_chain
                &&& final(printer).siblings == old(printer).siblings
            },
    {
        let ghost full = chain_view(old(printer).parent_chain@);
        let ghost p0 = *printer;
        let mut idx = printer.parent_chain.len();
        let mut found: Option<String> = None;
        proof {
            assert(full.take(idx as int) =~= full);
        }
        while idx > 0 && found.is_none()
            invariant
                idx <= printer.parent_chain@.len(),
                *printer == p0,
                full == chain_view(printer.parent_chain@),
                found is None ==> governing_list(full) == governing_list(full.take(idx as int)),
                found matches Some(t) ==> governing_list(full) == Some(t@),
            decreases idx,
        {
            idx -= 1;
            let t = &printer.parent_chain[idx];
            proof {
                assert(full[idx as int] == printer.parent_chain@[idx as int]@);
                assert(full.take(idx as int + 1).last() == full[idx as int]);
                assert(full.take(idx as int + 1).drop_last() =~= full.take(idx as int));
            }
            if string_eq_str(t, "ul") || string_eq_str(t, "ol") || string_eq_str(t, "menu") {
                found = Some(t.clone());
            }
        }
        let nearest = match found {
            None => {
                return ;
            },
            Some(t) => t,
        };
        let needs = match printer.data.last() {
            Some(c) => *c != '\n',
            None => true,
        };
        if needs {
            printer.data.push('\n');
        }
        let ghost with_nl = printer.data@;
        let current_depth = printer.parent_chain.len();
        let count: usize = *printer.siblings.get(&current_depth).unwrap();
        let start: usize = match ctx {
            Some(v) => *v as usize,
            None => 1,
        };
        let order = count + start;
        if string_eq_str(&nearest, "ol") {
            push_decimal(&mut printer.data, order);
            printer.data.push('.');
            printer.data.push(' ');
            proof {
                assert(printer.data@ =~= with_nl + (dec_digits(order as nat) + seq!['.', ' ']));
            }
        } else {
            printer.data.push('*');
            printer.data.push(' ');
            proof {
                assert(printer.data@ =~= with_nl + seq!['*', ' ']);
            }
        }
        self.start_pos = printer.data.len();
        self.list_type = Some(nearest);
        proof {
            if needs_newline(old(printer).data@) {
                assert(with_nl =~= old(printer).data@ + seq!['\n']);
            } else {
                assert(with_nl =~= old(printer).data@ + Seq::<char>::empty());
            }
        }
    }

    /// Exit hook: collapses the run of newlines and spaces at the start
    /// of the item's rendered content, then indents every continuation
    /// line by the governing list type's padding. Does nothing for an
    /// item that had no governing list.
    pub fn after_handle(&mut self, printer: &mut StructuredPrinter)
        requires
            old(self).list_type is Some ==> old(self).start_pos <= old(printer).data@.len(),
        ensures
            *final(self) == *old(self),
            old(self).list_type matches Some(t) ==> final(printer).data@ == old(
                printer,
            ).data@.take(old(self).start_pos as int) + pad_newlines(
                strip_leading_blank(old(printer).data@.skip(old(self).start_pos as int)),
                continuation_padding(t@),
            ),
            old(self).list_type is None ==> *final(printer) == *old(printer),
            final(printer).parent_chain == old(printer).parent_chain,
            final(printer).siblings == old(printer).siblings,
    {
        let lt = match &self.list_type {
            None => {
                return ;
            },
            Some(t) => t,
        };
        let pad: usize = if string_eq_str(lt, "ol") {
            3
        } else {
            2
        };
        reindent(&mut printer.data, self.start_pos, pad);
    }
}

} // verus!
