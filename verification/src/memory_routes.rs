//! The default memory-intent routes of layer 1. They classify the *type* of a
//! query; they do not query any store.

use vstd::prelude::*;

use crate::route::{is_plain_route, Route};
use crate::text::views;

verus! {

/// The default routes: each name with its example utterances, in order.
pub open spec fn memory_route_table() -> Seq<(Seq<char>, Seq<Seq<char>>)> {
    seq![
        ("factual"@, seq!["NIF de"@, "dirección de"@, "teléfono de"@, "fecha de nacimiento"@, "cuál es el NIF del cliente"@]),
        ("temporal"@, seq!["cuándo cambió"@, "historia de"@, "evolución de"@, "antes era"@, "qué decidí ayer sobre"@]),
        ("preference"@, seq!["prefiero"@, "me gusta"@, "tono preferido"@, "estilo"@]),
        ("procedural"@, seq!["cómo resolví"@, "pasos para"@, "procedimiento de"@]),
        ("relational"@, seq!["quién trabaja con"@, "reporta a"@, "pertenece a"@, "equipo de"@]),
        ("semantic"@, seq!["todas las personas que"@, "empresas del sector"@, "inferir"@]),
        ("keyword_search"@, seq!["busca"@, "encuentra el texto"@, "refactorización del módulo"@]),
        ("vector_similarity"@, seq!["concepto similar"@, "vector search por"@, "semánticamente parecido"@]),
    ]
}

/// The default memory-intent routes ([`memory_route_table`]), each with no
/// threshold, description, schemas or metadata of its own.
pub fn memory_intent_routes<S>() -> (r: Vec<Route<S>>)
    ensures
        r@.len() == memory_route_table().len(),
        forall|i: int|
            0 <= i < r@.len() ==> is_plain_route(
                #[trigger] r@[i],
                memory_route_table()[i].0,
                memory_route_table()[i].1,
            ),
{
    let mut v: Vec<Route<S>> = Vec::new();
    let u0 = vec!["NIF de", "dirección de", "teléfono de", "fecha de nacimiento", "cuál es el NIF del cliente"];
    assert(views(u0@) =~= memory_route_table()[0].1);
    v.push(Route::new("factual", u0));
    assert(is_plain_route(v@[0], memory_route_table()[0].0, memory_route_table()[0].1));
    let u1 = vec!["cuándo cambió", "historia de", "evolución de", "antes era", "qué decidí ayer sobre"];
    assert(views(u1@) =~= memory_route_table()[1].1);
    v.push(Route::new("temporal", u1));
    assert(is_plain_route(v@[1], memory_route_table()[1].0, memory_route_table()[1].1));
    let u2 = vec!["prefiero", "me gusta", "tono preferido", "estilo"];
    assert(views(u2@) =~= memory_route_table()[2].1);
    v.push(Route::new("preference", u2));
    assert(is_plain_route(v@[2], memory_route_table()[2].0, memory_route_table()[2].1));
    let u3 = vec!["cómo resolví", "pasos para", "procedimiento de"];
    assert(views(u3@) =~= memory_route_table()[3].1);
    v.push(Route::new("procedural", u3));
    assert(is_plain_route(v@[3], memory_route_table()[3].0, memory_route_table()[3].1));
    let u4 = vec!["quién trabaja con", "reporta a", "pertenece a", "equipo de"];
    assert(views(u4@) =~= memory_route_table()[4].1);
    v.push(Route::new("relational", u4));
    assert(is_plain_route(v@[4], memory_route_table()[4].0, memory_route_table()[4].1));
    let u5 = vec!["todas las personas que", "empresas del sector", "inferir"];
    assert(views(u5@) =~= memory_route_table()[5].1);
    v.push(Route::new("semantic", u5));
    assert(is_plain_route(v@[5], memory_route_table()[5].0, memory_route_table()[5].1));
    let u6 = vec!["busca", "encuentra el texto", "refactorización del módulo"];
    assert(views(u6@) =~= memory_route_table()[6].1);
    v.push(Route::new("keyword_search", u6));
    assert(is_plain_route(v@[6], memory_route_table()[6].0, memory_route_table()[6].1));
    let u7 = vec!["concepto similar", "vector search por", "semánticamente parecido"];
    assert(views(u7@) =~= memory_route_table()[7].1);
    v.push(Route::new("vector_similarity", u7));
    assert(is_plain_route(v@[7], memory_route_table()[7].0, memory_route_table()[7].1));
    assert forall|i: int| 0 <= i < v@.len() implies is_plain_route(
        #[trigger] v@[i],
        memory_route_table()[i].0,
        memory_route_table()[i].1,
    ) by {
        if i == 0 {
        } else if i == 1 {
        } else if i == 2 {
        } else if i == 3 {
        } else if i == 4 {
        } else if i == 5 {
        } else if i == 6 {
        } else if i == 7 {
        }
    }
    v
}

} // verus!
