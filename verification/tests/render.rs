//! Scenario tests that drive the two handlers the way the tree walker
//! does: entry hook, push of the tag onto the ancestor chain, children,
//! pop, exit hook, and a sibling-count increment after each item.

use html2md_lists::container::ListHandler;
use html2md_lists::element::Attr;
use html2md_lists::element::ElementInfo;
use html2md_lists::item::ListItemHandler;
use html2md_lists::printer::StructuredPrinter;

fn elem(name: &str, attrs: &[(&str, &str)]) -> ElementInfo {
    ElementInfo {
        name: name.to_string(),
        attrs: attrs
            .iter()
            .map(|(n, v)| Attr { name: n.to_string(), value: v.to_string() })
            .collect(),
    }
}

fn out(p: &StructuredPrinter) -> String {
    p.data.iter().collect()
}

/// Enters a container: entry hook, then the walker's push of the tag and
/// a fresh sibling count for the new depth.
fn enter(
    h: &mut ListHandler,
    name: &str,
    attrs: &[(&str, &str)],
    p: &mut StructuredPrinter,
    ctx: &mut Option<u32>,
) {
    h.handle_element(&elem(name, attrs), p, ctx);
    p.parent_chain.push(name.to_string());
    let depth = p.parent_chain.len();
    p.siblings.insert(depth, 0);
}

/// Leaves a container: the walker's pop, then the exit hook.
fn leave(h: &mut ListHandler, p: &mut StructuredPrinter, ctx: &mut Option<u32>) {
    p.parent_chain.pop();
    h.after_handle(p, ctx);
}

/// Renders one item whose children only append `content`, then lets the
/// walker count it as a processed sibling.
fn item(content: &str, p: &mut StructuredPrinter, ctx: &Option<u32>) {
    let mut ih = ListItemHandler::default();
    ih.handle(p, ctx);
    p.parent_chain.push("li".to_string());
    let depth = p.parent_chain.len();
    p.siblings.insert(depth, 0);
    p.append_str(content);
    p.parent_chain.pop();
    ih.after_handle(p);
    let depth = p.parent_chain.len();
    let n = *p.siblings.get(&depth).unwrap();
    p.siblings.insert(depth, n + 1);
}

#[test]
fn ul_two_items() {
    let mut p = StructuredPrinter::new();
    let mut ctx: Option<u32> = None;
    let mut h = ListHandler::default();
    enter(&mut h, "ul", &[], &mut p, &mut ctx);
    item("A", &mut p, &ctx);
    item("B", &mut p, &ctx);
    leave(&mut h, &mut p, &mut ctx);
    assert_eq!(out(&p), "\n* A\n* B\n\n");
}

#[test]
fn ol_start_three() {
    let mut p = StructuredPrinter::new();
    let mut ctx: Option<u32> = None;
    let mut h = ListHandler::default();
    enter(&mut h, "ol", &[("start", "3")], &mut p, &mut ctx);
    item("X", &mut p, &ctx);
    item("Y", &mut p, &ctx);
    leave(&mut h, &mut p, &mut ctx);
    assert_eq!(out(&p), "\n3. X\n4. Y\n\n");
}

#[test]
fn nested_ol_inside_ul() {
    let mut p = StructuredPrinter::new();
    let mut ctx: Option<u32> = None;
    let mut outer = ListHandler::default();
    enter(&mut outer, "ul", &[], &mut p, &mut ctx);

    // one item holding text and a nested ordered list
    let mut ih = ListItemHandler::default();
    ih.handle(&mut p, &ctx);
    p.parent_chain.push("li".to_string());
    p.siblings.insert(p.parent_chain.len(), 0);
    p.append_str("A");
    let mut inner = ListHandler::default();
    enter(&mut inner, "ol", &[], &mut p, &mut ctx);
    item("1", &mut p, &ctx);
    item("2", &mut p, &ctx);
    leave(&mut inner, &mut p, &mut ctx);
    p.parent_chain.pop();
    ih.after_handle(&mut p);

    leave(&mut outer, &mut p, &mut ctx);
    assert_eq!(out(&p), "\n* A\n  1. 1\n  2. 2\n  \n  \n\n");
}

#[test]
fn paragraph_item_reindents() {
    let mut p = StructuredPrinter::new();
    let mut ctx: Option<u32> = None;
    let mut h = ListHandler::default();
    enter(&mut h, "ul", &[], &mut p, &mut ctx);
    // a paragraph starts its block with a newline before the text
    item("\nfirst line\nsecond line", &mut p, &ctx);
    leave(&mut h, &mut p, &mut ctx);
    assert_eq!(out(&p), "\n* first line\n  second line\n\n");
}

#[test]
fn ol_default_start_first_item_is_one() {
    let mut p = StructuredPrinter::new();
    let mut ctx: Option<u32> = None;
    let mut h = ListHandler::default();
    enter(&mut h, "ol", &[], &mut p, &mut ctx);
    item("a", &mut p, &ctx);
    leave(&mut h, &mut p, &mut ctx);
    assert_eq!(out(&p), "\n1. a\n\n");
}

#[test]
fn ol_start_five_numbers_from_five() {
    let mut p = StructuredPrinter::new();
    let mut ctx: Option<u32> = None;
    let mut h = ListHandler::default();
    enter(&mut h, "ol", &[("start", "5")], &mut p, &mut ctx);
    item("a", &mut p, &ctx);
    item("b", &mut p, &ctx);
    leave(&mut h, &mut p, &mut ctx);
    assert_eq!(out(&p), "\n5. a\n6. b\n\n");
}

#[test]
fn nested_restores_outer_numbering() {
    let mut p = StructuredPrinter::new();
    let mut ctx: Option<u32> = None;
    let mut outer = ListHandler::default();
    enter(&mut outer, "ol", &[("start", "7")], &mut p, &mut ctx);
    assert_eq!(ctx, Some(7));

    // first outer item carries a nested list with its own numbering
    let mut ih = ListItemHandler::default();
    ih.handle(&mut p, &ctx);
    p.parent_chain.push("li".to_string());
    p.siblings.insert(p.parent_chain.len(), 0);
    p.append_str("a");
    let mut inner = ListHandler::default();
    enter(&mut inner, "ol", &[], &mut p, &mut ctx);
    assert_eq!(ctx, None);
    item("x", &mut p, &ctx);
    leave(&mut inner, &mut p, &mut ctx);
    assert_eq!(ctx, Some(7));
    p.parent_chain.pop();
    ih.after_handle(&mut p);
    let n = *p.siblings.get(&1).unwrap();
    p.siblings.insert(1, n + 1);

    // the second outer item continues with the outer offset
    item("b", &mut p, &ctx);
    leave(&mut outer, &mut p, &mut ctx);
    assert_eq!(out(&p), "\n7. a\n   1. x\n   \n   \n8. b\n\n");
}

#[test]
fn menu_items_bullet_and_two_space_padding() {
    let mut p = StructuredPrinter::new();
    let mut ctx: Option<u32> = None;
    let mut h = ListHandler::default();
    enter(&mut h, "menu", &[], &mut p, &mut ctx);
    item("a\nb", &mut p, &ctx);
    leave(&mut h, &mut p, &mut ctx);
    assert_eq!(out(&p), "\n* a\n  b\n\n");
}

#[test]
fn ul_multiline_item_two_spaces() {
    let mut p = StructuredPrinter::new();
    let mut ctx: Option<u32> = None;
    let mut h = ListHandler::default();
    enter(&mut h, "ul", &[], &mut p, &mut ctx);
    item("a\nb\nc", &mut p, &ctx);
    leave(&mut h, &mut p, &mut ctx);
    assert_eq!(out(&p), "\n* a\n  b\n  c\n\n");
}

#[test]
fn ol_multiline_item_three_spaces() {
    let mut p = StructuredPrinter::new();
    let mut ctx: Option<u32> = None;
    let mut h = ListHandler::default();
    enter(&mut h, "ol", &[], &mut p, &mut ctx);
    item("a\nb", &mut p, &ctx);
    leave(&mut h, &mut p, &mut ctx);
    assert_eq!(out(&p), "\n1. a\n   b\n\n");
}

#[test]
fn item_without_list_is_untouched() {
    let mut p = StructuredPrinter::new();
    p.append_str("text");
    p.parent_chain.push("p".to_string());
    let ctx: Option<u32> = None;
    let mut ih = ListItemHandler::default();
    ih.handle(&mut p, &ctx);
    ih.after_handle(&mut p);
    assert_eq!(out(&p), "text");
}

#[test]
fn two_digit_ordinals() {
    let mut p = StructuredPrinter::new();
    let mut ctx: Option<u32> = None;
    let mut h = ListHandler::default();
    enter(&mut h, "ol", &[("start", "9")], &mut p, &mut ctx);
    item("a", &mut p, &ctx);
    item("b", &mut p, &ctx);
    leave(&mut h, &mut p, &mut ctx);
    assert_eq!(out(&p), "\n9. a\n10. b\n\n");
}

#[test]
fn ol_bad_start_defaults_to_one() {
    let mut p = StructuredPrinter::new();
    let mut ctx: Option<u32> = None;
    let mut h = ListHandler::default();
    enter(&mut h, "ol", &[("start", "abc")], &mut p, &mut ctx);
    item("a", &mut p, &ctx);
    leave(&mut h, &mut p, &mut ctx);
    assert_eq!(out(&p), "\n1. a\n\n");
}

#[test]
fn ol_signed_start_is_accepted() {
    let mut p = StructuredPrinter::new();
    let mut ctx: Option<u32> = None;
    let mut h = ListHandler::default();
    enter(&mut h, "ol", &[("start", "+4")], &mut p, &mut ctx);
    item("a", &mut p, &ctx);
    leave(&mut h, &mut p, &mut ctx);
    assert_eq!(out(&p), "\n4. a\n\n");
}

#[test]
fn ol_start_zero_numbers_from_zero() {
    let mut p = StructuredPrinter::new();
    let mut ctx: Option<u32> = None;
    let mut h = ListHandler::default();
    enter(&mut h, "ol", &[("start", "0")], &mut p, &mut ctx);
    item("a", &mut p, &ctx);
    item("b", &mut p, &ctx);
    leave(&mut h, &mut p, &mut ctx);
    assert_eq!(out(&p), "\n0. a\n1. b\n\n");
}

#[test]
fn ol_overflowing_start_defaults_to_one() {
    let mut p = StructuredPrinter::new();
    let mut ctx: Option<u32> = None;
    let mut h = ListHandler::default();
    enter(&mut h, "ol", &[("start", "4294967296")], &mut p, &mut ctx);
    item("a", &mut p, &ctx);
    leave(&mut h, &mut p, &mut ctx);
    assert_eq!(out(&p), "\n1. a\n\n");
}

#[test]
fn leading_blanks_collapsed() {
    let mut p = StructuredPrinter::new();
    let mut ctx: Option<u32> = None;
    let mut h = ListHandler::default();
    enter(&mut h, "ul", &[], &mut p, &mut ctx);
    item("  \n \nX", &mut p, &ctx);
    leave(&mut h, &mut p, &mut ctx);
    assert_eq!(out(&p), "\n* X\n\n");
}

#[test]
fn empty_items_each_get_a_line() {
    let mut p = StructuredPrinter::new();
    let mut ctx: Option<u32> = None;
    let mut h = ListHandler::default();
    enter(&mut h, "ul", &[], &mut p, &mut ctx);
    item("", &mut p, &ctx);
    item("", &mut p, &ctx);
    leave(&mut h, &mut p, &mut ctx);
    assert_eq!(out(&p), "\n* \n* \n\n");
}

#[test]
fn trailing_newline_gets_padding() {
    let mut p = StructuredPrinter::new();
    let mut ctx: Option<u32> = None;
    let mut h = ListHandler::default();
    enter(&mut h, "ul", &[], &mut p, &mut ctx);
    item("x\n", &mut p, &ctx);
    leave(&mut h, &mut p, &mut ctx);
    assert_eq!(out(&p), "\n* x\n  \n\n");
}

#[test]
fn innermost_list_governs_the_prefix() {
    let mut p = StructuredPrinter::new();
    p.parent_chain.push("ol".to_string());
    p.parent_chain.push("li".to_string());
    p.parent_chain.push("ul".to_string());
    p.siblings.insert(3, 0);
    // even with a numbering context set, an item under an unordered
    // list renders as a bullet
    let ctx: Option<u32> = Some(5);
    let mut ih = ListItemHandler::default();
    ih.handle(&mut p, &ctx);
    p.append_str("a");
    ih.after_handle(&mut p);
    assert_eq!(out(&p), "\n* a");
}
