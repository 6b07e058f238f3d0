//! Properties of the list renderer, stated and proved over the spec
//! functions that the handlers' contracts use.

use vstd::prelude::*;

use crate::container::container_enter;
use crate::container::container_exit;
use crate::container::container_start;
use crate::element::ElementInfo;
use crate::element::spec_attr_value;
use crate::item::item_ordinal;
use crate::text::is_blank;
use crate::text::pad_newlines;
use crate::text::pad_seq;
use crate::text::parse_u32_spec;
use crate::text::strip_leading_blank;

verus! {

/// Law: an ordered-list container without a `start` attribute leaves
/// the numbering context unset, and its first direct item then renders
/// with ordinal 1.
pub proof fn lemma_default_start_first_ordinal(e: ElementInfo)
    requires
        e.name@ == "ol"@,
        spec_attr_value(e.attrs@, "start"@) is None,
    ensures
        container_start(e) is None,
        item_ordinal(0, container_start(e)) == 1,
{
}

/// Law: an ordered-list container whose `start` attribute parses to
/// `v` numbers its direct items `v`, `v + 1`, and so on: the item
/// processed after `k` completed siblings renders with ordinal `v + k`.
pub proof fn lemma_explicit_start_ordinals(e: ElementInfo, v: u32, k: nat)
    requires
        e.name@ == "ol"@,
        spec_attr_value(e.attrs@, "start"@) matches Some(s) && parse_u32_spec(s) == Some(v),
    ensures
        container_start(e) == Some(v),
        item_ordinal(k, container_start(e)) == v + k,
{
}

/// Law: nested lists number independently: the numbering context a
/// container installs depends on that container alone, never on the
/// enclosing list's context.
pub proof fn lemma_nested_numbering_independent(c1: Option<u32>, c2: Option<u32>, e: ElementInfo)
    ensures
        container_enter(c1, e).0 == container_enter(c2, e).0,
{
}

/// Law: save and restore round-trip losslessly: after leaving a
/// container, the numbering context is exactly what it was before
/// entering that container, whatever the container installed.
pub proof fn lemma_enter_exit_round_trip(ctx: Option<u32>, e: ElementInfo)
    ensures
        container_exit(container_enter(ctx, e).1) == ctx,
{
}

/// Law: an item's post-processed content never begins with a newline
/// or a space: the collapse removes every leading blank, and the
/// indentation pass preserves the first character, so no blank line
/// stands between the item's prefix and its first text character.
pub proof fn lemma_no_leading_blank(s: Seq<char>, pad: nat)
    ensures
        strip_leading_blank(s).len() > 0 ==> !is_blank(strip_leading_blank(s)[0]),
        pad_newlines(strip_leading_blank(s), pad).len() > 0 ==> !is_blank(
            pad_newlines(strip_leading_blank(s), pad)[0],
        ),
    decreases s.len(),
{
    if s.len() > 0 && is_blank(s[0]) {
        lemma_no_leading_blank(s.skip(1), pad);
    } else {
        let t = strip_leading_blank(s);
        if t.len() > 0 {
            assert(pad_newlines(t, pad)[0] == t[0]);
        }
    }
}

/// Law: every continuation line is indented by exactly the padding
/// width: in the padded content, each newline is followed by `pad`
/// spaces, and by no further space, provided no line of the content
/// itself begins with a space.
pub proof fn lemma_continuation_indentation(s: Seq<char>, pad: nat)
    requires
        forall|i: int| 0 <= i < s.len() - 1 && #[trigger] s[i] == '\n' ==> s[i + 1] != ' ',
    ensures
        forall|i: int|
            0 <= i < pad_newlines(s, pad).len() && #[trigger] pad_newlines(s, pad)[i] == '\n' ==> {
                &&& i + pad < pad_newlines(s, pad).len()
                &&& (forall|j: int| i < j <= i + pad ==> #[trigger] pad_newlines(s, pad)[j] == ' ')
                &&& (i + pad + 1 < pad_newlines(s, pad).len() ==> pad_newlines(s, pad)[i + pad + 1]
                    != ' ')
            },
    decreases s.len(),
{
    let r = pad_newlines(s, pad);
    if s.len() == 0 {
    } else {
        let rest = s.skip(1);
        assert forall|i: int| 0 <= i < rest.len() - 1 && #[trigger] rest[i] == '\n' implies rest[i
            + 1] != ' ' by {
            assert(rest[i] == s[i + 1]);
            assert(rest[i + 1] == s[i + 2]);
        }
        lemma_continuation_indentation(rest, pad);
        let rp = pad_newlines(rest, pad);
        if rest.len() > 0 {
            if rest[0] == '\n' {
                assert(rp[0] == '\n');
            } else {
                assert(rp[0] == rest[0]);
            }
        }
        if s[0] == '\n' {
            assert(r == seq!['\n'] + pad_seq(pad) + rp);
            assert(r.len() == 1 + pad + rp.len());
            if rest.len() > 0 {
                assert(rest[0] == s[1]);
                assert(s[0] == '\n');
                assert(s[1] != ' ');
            }
            assert forall|i: int| 0 <= i < r.len() && #[trigger] r[i] == '\n' implies {
                &&& i + pad < r.len()
                &&& (forall|j: int| i < j <= i + pad ==> r[j] == ' ')
                &&& (i + pad + 1 < r.len() ==> r[i + pad + 1] != ' ')
            } by {
                if i == 0 {
                    assert forall|j: int| i < j <= i + pad implies r[j] == ' ' by {
                        assert(r[j] == pad_seq(pad)[j - 1]);
                    }
                    if i + pad + 1 < r.len() {
                        assert(r[pad + 1 as int] == rp[0]);
                    }
                } else if i <= pad {
                    assert(r[i] == pad_seq(pad)[i - 1]);
                    assert(false);
                } else {
                    let i2 = i - 1 - pad;
                    assert(r[i] == rp[i2]);
                    assert(i2 + pad < rp.len());
                    assert forall|j: int| i < j <= i + pad implies r[j] == ' ' by {
                        assert(r[j] == rp[j - 1 - pad]);
                    }
                    if i + pad + 1 < r.len() {
                        assert(r[i + pad + 1] == rp[i2 + pad + 1]);
                    }
                }
            }
        } else {
            assert(r == seq![s[0]] + rp);
            assert(r.len() == 1 + rp.len());
            assert forall|i: int| 0 <= i < r.len() && #[trigger] r[i] == '\n' implies {
                &&& i + pad < r.len()
                &&& (forall|j: int| i < j <= i + pad ==> r[j] == ' ')
                &&& (i + pad + 1 < r.len() ==> r[i + pad + 1] != ' ')
            } by {
                assert(i >= 1);
                let i2 = i - 1;
                assert(r[i] == rp[i2]);
                assert(i2 + pad < rp.len());
                assert forall|j: int| i < j <= i + pad implies r[j] == ' ' by {
                    assert(r[j] == rp[j - 1]);
                }
                if i + pad + 1 < r.len() {
                    assert(r[i + pad + 1] == rp[i2 + pad + 1]);
                }
            }
        }
    }
}

} // verus!
