//! The element data a handler reads: a tag name and a list of attribute
//! name/value pairs, as plain strings. A parsed markup tree node is
//! reduced to this shape by `element_info`, so everything downstream of
//! that conversion is verified on plain values.

use vstd::prelude::*;

verus! {

/// One attribute of an element: its name and its value.
pub struct Attr {
    pub name: String,
    pub value: String,
}

/// What a handler reads of an element: its local tag name and its
/// attributes.
pub struct ElementInfo {
    pub name: String,
    pub attrs: Vec<Attr>,
}

/// The value of the first attribute named `key`, if any.
pub open spec fn spec_attr_value(attrs: Seq<Attr>, key: Seq<char>) -> Option<Seq<char>>
    decreases attrs.len(),
{
    if attrs.len() == 0 {
        None
    } else if attrs[0].name@ == key {
        Some(attrs[0].value@)
    } else {
        spec_attr_value(attrs.skip(1), key)
    }
}

/// Looks up the first attribute named `key` and returns a copy of its
/// value.
pub fn attr_value(attrs: &Vec<Attr>, key: &str) -> (r: Option<String>)
    ensures
        match r {
            Some(v) => spec_attr_value(attrs@, key@) == Some(v@),
            None => spec_attr_value(attrs@, key@) is None,
        },
{
    let n = attrs.len();
    let mut i: usize = 0;
    proof {
        assert(attrs@.skip(0) =~= attrs@);
    }
    while i < n
        invariant
            i <= n,
            n == attrs@.len(),
            spec_attr_value(attrs@, key@) == spec_attr_value(attrs@.skip(i as int), key@),
        decreases n - i,
    {
        proof {
            assert(attrs@.skip(i as int)[0] == attrs@[i as int]);
            assert(attrs@.skip(i as int).skip(1) =~= attrs@.skip(i + 1));
        }
        if crate::text::string_eq_str(&attrs[i].name, key) {
            return Some(attrs[i].value.clone());
        }
        i += 1;
    }
    proof {
        assert(attrs@.skip(n as int) =~= Seq::<Attr>::empty());
    }
    None
}

#[verifier::external_type_specification]
#[verifier::external_body]
pub struct ExNode(markup5ever_rcdom::Node);

/// Relies on markup5ever_rcdom::NodeData: an element node carries its
/// tag name (a `QualName`, whose `local` part is read) and its attribute
/// list; node kinds other than `Element` carry neither, and yield `None`.
#[verifier::external_body]
pub(crate) fn element_info(tag: &markup5ever_rcdom::Handle) -> (r: Option<ElementInfo>) {
    match &tag.data {
        markup5ever_rcdom::NodeData::Element { name, attrs, .. } => {
            let copied: Vec<Attr> = attrs
                .borrow()
                .iter()
                .map(|a| Attr { name: a.name.local.to_string(), value: a.value.to_string() })
                .collect();
            Some(ElementInfo { name: name.local.to_string(), attrs: copied })
        },
        _ => None,
    }
}

} // verus!
