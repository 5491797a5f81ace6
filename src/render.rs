//! Assembly of the output document from the registered classes.

use vstd::prelude::*;
use std::collections::VecDeque;
use crate::json::JsonValue;
use crate::parse::{Registry, build, names_of, no_dangling, lemma_build_registers, to_pydantic};
use crate::registry::Models;

verus! {

/// The imports that open every document.
pub open spec fn preamble() -> Seq<char> {
    "from pydantic import BaseModel\nfrom typing import Any\n\n"@
}

/// The declarations of the queued names, in queue order, each followed by a
/// blank line. A name queued twice is written twice, with its current text.
pub open spec fn blocks(defs: Map<Seq<char>, Seq<char>>, order: Seq<Seq<char>>) -> Seq<char>
    decreases order.len(),
{
    if order.len() == 0 {
        Seq::empty()
    } else {
        blocks(defs, order.drop_last()) + defs[order.last()] + "\n\n"@
    }
}

/// The whole output document for a registry.
pub open spec fn document(r: Registry) -> Seq<char> {
    preamble() + blocks(r.0, r.1)
}

/// Writes the document: the imports, then the declaration of each queued name
/// in queue order, looked up in `models` when it is written.
pub fn render_document(models: &Models, order: &VecDeque<String>) -> (r: String)
    requires
        models.wf(),
        no_dangling((models@, names_of(*order))),
    ensures
        r@ == document((models@, names_of(*order))),
{
    let ghost names = names_of(*order);
    let mut out: String = String::new();
    out.append("from pydantic import BaseModel\nfrom typing import Any\n\n");
    let mut i: usize = 0;
    while i < order.len()
        invariant
            models.wf(),
            names == names_of(*order),
            no_dangling((models@, names)),
            i <= names.len(),
            out@ == preamble() + blocks(models@, names.subrange(0, i as int)),
        decreases names.len() - i,
    {
        assert((models@, names).1[i as int] == names[i as int]);
        assert(models@.contains_key(names[i as int]));
        match models.get(order[i].as_str()) {
            Some(text) => {
                out.append(text.as_str());
                out.append("\n\n");
            },
            None => {},
        }
        proof {
            let pre = names.subrange(0, i + 1);
            assert(pre.drop_last() =~= names.subrange(0, i as int));
            assert(out@ =~= preamble() + blocks(models@, pre));
        }
        i = i + 1;
    }
    assert(names.subrange(0, names.len() as int) =~= names);
    out
}

/// Infers the classes of `json`, the outermost named `model_name`, and writes
/// the document that declares them.
pub fn json_to_pydantic(json: &JsonValue, model_name: &str) -> (r: String)
    ensures
        r@ == document(
            build(
                *json,
                model_name@,
                (Map::<Seq<char>, Seq<char>>::empty(), Seq::<Seq<char>>::empty()),
            ),
        ),
{
    let mut models = Models::new();
    let mut order: VecDeque<String> = VecDeque::new();
    proof {
        assert(names_of(order) =~= Seq::<Seq<char>>::empty());
        lemma_build_registers(*json, model_name@, (models@, names_of(order)));
    }
    to_pydantic(json, model_name, &mut models, &mut order);
    render_document(&models, &order)
}

} // verus!
