//! Typedefs of slices and vectors, each written once.
use vstd::prelude::*;

use crate::ctypes;
use crate::ctypes::c_type_from_key;
use crate::sorted;
use crate::sorted::SortedMap;
use crate::text;
use crate::text::{cat2, cat3, cat6, line, text_contains};

verus! {

/// How the typedef of the struct `name` begins.
pub open spec fn typedef_mark(name: Seq<char>) -> Seq<char> {
    "typedef struct "@ + name + " "@
}

/// The typedef of the slice with that element key.
pub open spec fn slice_typedef(key: Seq<char>) -> Seq<char> {
    text::line_c(
        ""@,
        typedef_mark("Slice_"@ + key) + "{ "@ + ctypes::key_c(key) + "* ptr; maka_int len; } "@ + (
        "Slice_"@ + key) + ";"@,
    )
}

/// The typedef of the vector with that element key.
pub open spec fn vec_typedef(key: Seq<char>) -> Seq<char> {
    text::line_c(
        ""@,
        typedef_mark("Vec_"@ + key) + "{ "@ + ctypes::key_c(key)
            + "* data; maka_int len; maka_int cap; } "@ + ("Vec_"@ + key) + ";"@,
    )
}

/// The output `out` and the slice typedefs of the first `n` keys that it lacks.
pub open spec fn add_slices(out: Seq<char>, keys: Seq<Seq<char>>, n: nat) -> Seq<char>
    decreases n,
{
    if n == 0 || n > keys.len() {
        out
    } else {
        let before = add_slices(out, keys, (n - 1) as nat);
        if text::has_part(before, typedef_mark("Slice_"@ + keys[n - 1])) {
            before
        } else {
            before + slice_typedef(keys[n - 1])
        }
    }
}

/// The output `out` and the vector typedefs of the first `n` keys that it lacks.
pub open spec fn add_vecs(out: Seq<char>, keys: Seq<Seq<char>>, n: nat) -> Seq<char>
    decreases n,
{
    if n == 0 || n > keys.len() {
        out
    } else {
        let before = add_vecs(out, keys, (n - 1) as nat);
        if text::has_part(before, typedef_mark("Vec_"@ + keys[n - 1])) {
            before
        } else {
            before + vec_typedef(keys[n - 1])
        }
    }
}

/// The output with the typedefs of all the slices, in ascending key order.
pub open spec fn with_slices(out: Seq<char>, keys: Set<Seq<char>>) -> Seq<char> {
    let list = sorted::ascending::<String>(keys);
    add_slices(out, list, list.len())
}

/// The output with the typedefs of all the vectors, in ascending key order.
pub open spec fn with_vecs(out: Seq<char>, keys: Set<Seq<char>>) -> Seq<char> {
    let list = sorted::ascending::<String>(keys);
    add_vecs(out, list, list.len())
}

/// Appends the slice typedefs that the output lacks.
pub fn emit_slice_typedefs(out: &mut String, keys: &SortedMap<String, ()>)
    requires
        keys.wf(),
    ensures
        final(out)@ == with_slices(old(out)@, keys.dom()),
        forall|k: Seq<char>| #[trigger]
            keys.dom().contains(k) ==> text::has_part(final(out)@, typedef_mark("Slice_"@ + k)),
        forall|part: Seq<char>|
            text::has_part(old(out)@, part) ==> #[trigger] text::has_part(final(out)@, part),
{
    proof {
        keys.lemma_listing();
    }
    let ghost list: Seq<Seq<char>> = keys.keys();
    let mut i: usize = 0;
    while i < keys.len()
        invariant
            i <= list.len(),
            list == keys.keys(),
            out@ == add_slices(old(out)@, list, i as nat),
        decreases list.len() - i,
    {
        let key: &String = keys.key(i);
        let name: String = cat2("Slice_", key);
        let mark: String = cat3("typedef struct ", &name, " ");
        if !text_contains(out, &mark) {
            let text: String = cat6(
                &mark,
                "{ ",
                &c_type_from_key(key),
                "* ptr; maka_int len; } ",
                &name,
                ";",
            );
            out.append(&line("", &text));
        }
        i += 1;
    }
    proof {
        law_slice_typedefs_once(old(out)@, list);
        assert forall|k: Seq<char>| #[trigger] keys.dom().contains(k) implies text::has_part(
            out@,
            typedef_mark("Slice_"@ + k),
        ) by {
            let i = choose|i: int| 0 <= i < list.len() && list[i] == k;
            assert(text::has_part(out@, typedef_mark("Slice_"@ + list[i])));
        }
    }
}

/// Appends the vector typedefs that the output lacks.
pub fn emit_vec_typedefs(out: &mut String, keys: &SortedMap<String, ()>)
    requires
        keys.wf(),
    ensures
        final(out)@ == with_vecs(old(out)@, keys.dom()),
        forall|k: Seq<char>| #[trigger]
            keys.dom().contains(k) ==> text::has_part(final(out)@, typedef_mark("Vec_"@ + k)),
        forall|part: Seq<char>|
            text::has_part(old(out)@, part) ==> #[trigger] text::has_part(final(out)@, part),
{
    proof {
        keys.lemma_listing();
    }
    let ghost list: Seq<Seq<char>> = keys.keys();
    let mut i: usize = 0;
    while i < keys.len()
        invariant
            i <= list.len(),
            list == keys.keys(),
            out@ == add_vecs(old(out)@, list, i as nat),
        decreases list.len() - i,
    {
        let key: &String = keys.key(i);
        let name: String = cat2("Vec_", key);
        let mark: String = cat3("typedef struct ", &name, " ");
        if !text_contains(out, &mark) {
            let text: String = cat6(
                &mark,
                "{ ",
                &c_type_from_key(key),
                "* data; maka_int len; maka_int cap; } ",
                &name,
                ";",
            );
            out.append(&line("", &text));
        }
        i += 1;
    }
    proof {
        law_vec_typedefs_once(old(out)@, list);
        assert forall|k: Seq<char>| #[trigger] keys.dom().contains(k) implies text::has_part(
            out@,
            typedef_mark("Vec_"@ + k),
        ) by {
            let i = choose|i: int| 0 <= i < list.len() && list[i] == k;
            assert(text::has_part(out@, typedef_mark("Vec_"@ + list[i])));
        }
    }
}

proof fn lemma_part_added(a: Seq<char>, mark: Seq<char>, rest: Seq<char>, end: Seq<char>)
    ensures
        text::has_part(a + (""@ + (mark + rest) + end), mark),
{
    reveal_strlit("");
    let all = a + (""@ + (mark + rest) + end);
    let i = a.len() as int;
    assert(all.subrange(i, i + mark.len()) =~= mark);
}

proof fn lemma_slice_marked(out: Seq<char>, key: Seq<char>)
    ensures
        text::has_part(out + slice_typedef(key), typedef_mark("Slice_"@ + key)),
{
    let mark = typedef_mark("Slice_"@ + key);
    let name = "Slice_"@ + key;
    let rest = "{ "@ + (ctypes::key_c(key) + ("* ptr; maka_int len; } "@ + (name + ";"@)));
    assert(mark + "{ "@ + ctypes::key_c(key) + "* ptr; maka_int len; } "@ + name + ";"@ =~= mark + rest);
    lemma_part_added(out, mark, rest, "\n"@);
}

proof fn lemma_vec_marked(out: Seq<char>, key: Seq<char>)
    ensures
        text::has_part(out + vec_typedef(key), typedef_mark("Vec_"@ + key)),
{
    let mark = typedef_mark("Vec_"@ + key);
    let name = "Vec_"@ + key;
    let rest = "{ "@ + (ctypes::key_c(key) + ("* data; maka_int len; maka_int cap; } "@ + (name + ";"@)));
    assert(mark + "{ "@ + ctypes::key_c(key) + "* data; maka_int len; maka_int cap; } "@ + name + ";"@
        =~= mark + rest);
    lemma_part_added(out, mark, rest, "\n"@);
}

proof fn lemma_slices_kept(out: Seq<char>, keys: Seq<Seq<char>>, n: nat, part: Seq<char>)
    requires
        text::has_part(out, part),
    ensures
        text::has_part(add_slices(out, keys, n), part),
    decreases n,
{
    if 0 < n <= keys.len() {
        lemma_slices_kept(out, keys, (n - 1) as nat, part);
        text::lemma_part_kept(
            add_slices(out, keys, (n - 1) as nat),
            slice_typedef(keys[n - 1]),
            part,
        );
    }
}

proof fn lemma_vecs_kept(out: Seq<char>, keys: Seq<Seq<char>>, n: nat, part: Seq<char>)
    requires
        text::has_part(out, part),
    ensures
        text::has_part(add_vecs(out, keys, n), part),
    decreases n,
{
    if 0 < n <= keys.len() {
        lemma_vecs_kept(out, keys, (n - 1) as nat, part);
        text::lemma_part_kept(add_vecs(out, keys, (n - 1) as nat), vec_typedef(keys[n - 1]), part);
    }
}

proof fn lemma_slices_there(out: Seq<char>, keys: Seq<Seq<char>>, n: nat, i: int)
    requires
        0 <= i < n <= keys.len(),
    ensures
        text::has_part(add_slices(out, keys, n), typedef_mark("Slice_"@ + keys[i])),
    decreases n,
{
    let before = add_slices(out, keys, (n - 1) as nat);
    if i < n - 1 {
        lemma_slices_there(out, keys, (n - 1) as nat, i);
        text::lemma_part_kept(before, slice_typedef(keys[n - 1]), typedef_mark("Slice_"@ + keys[i]));
    } else {
        lemma_slice_marked(before, keys[i]);
    }
}

proof fn lemma_vecs_there(out: Seq<char>, keys: Seq<Seq<char>>, n: nat, i: int)
    requires
        0 <= i < n <= keys.len(),
    ensures
        text::has_part(add_vecs(out, keys, n), typedef_mark("Vec_"@ + keys[i])),
    decreases n,
{
    let before = add_vecs(out, keys, (n - 1) as nat);
    if i < n - 1 {
        lemma_vecs_there(out, keys, (n - 1) as nat, i);
        text::lemma_part_kept(before, vec_typedef(keys[n - 1]), typedef_mark("Vec_"@ + keys[i]));
    } else {
        lemma_vec_marked(before, keys[i]);
    }
}

proof fn lemma_slices_settled(out: Seq<char>, keys: Seq<Seq<char>>, n: nat)
    requires
        n <= keys.len(),
        forall|i: int|
            0 <= i < keys.len() ==> text::has_part(out, typedef_mark("Slice_"@ + #[trigger] keys[i])),
    ensures
        add_slices(out, keys, n) == out,
    decreases n,
{
    if n > 0 {
        lemma_slices_settled(out, keys, (n - 1) as nat);
        assert(text::has_part(out, typedef_mark("Slice_"@ + keys[n - 1])));
    }
}

proof fn lemma_vecs_settled(out: Seq<char>, keys: Seq<Seq<char>>, n: nat)
    requires
        n <= keys.len(),
        forall|i: int|
            0 <= i < keys.len() ==> text::has_part(out, typedef_mark("Vec_"@ + #[trigger] keys[i])),
    ensures
        add_vecs(out, keys, n) == out,
    decreases n,
{
    if n > 0 {
        lemma_vecs_settled(out, keys, (n - 1) as nat);
        assert(text::has_part(out, typedef_mark("Vec_"@ + keys[n - 1])));
    }
}

/// Writing the slice typedefs leaves every wanted one in the output, keeps what was
/// there, and a second time adds nothing.
pub proof fn law_slice_typedefs_once(out: Seq<char>, keys: Seq<Seq<char>>)
    ensures
        forall|i: int|
            0 <= i < keys.len() ==> text::has_part(
                add_slices(out, keys, keys.len()),
                typedef_mark("Slice_"@ + #[trigger] keys[i]),
            ),
        forall|part: Seq<char>|
            text::has_part(out, part) ==> #[trigger] text::has_part(add_slices(out, keys, keys.len()), part),
        add_slices(add_slices(out, keys, keys.len()), keys, keys.len()) == add_slices(
            out,
            keys,
            keys.len(),
        ),
{
    let all = add_slices(out, keys, keys.len());
    assert forall|i: int| 0 <= i < keys.len() implies text::has_part(
        all,
        typedef_mark("Slice_"@ + #[trigger] keys[i]),
    ) by {
        lemma_slices_there(out, keys, keys.len(), i);
    }
    assert forall|part: Seq<char>| text::has_part(out, part) implies #[trigger] text::has_part(all, part) by {
        lemma_slices_kept(out, keys, keys.len(), part);
    }
    lemma_slices_settled(all, keys, keys.len());
}

/// Writing the vector typedefs leaves every wanted one in the output, keeps what was
/// there, and a second time adds nothing.
pub proof fn law_vec_typedefs_once(out: Seq<char>, keys: Seq<Seq<char>>)
    ensures
        forall|i: int|
            0 <= i < keys.len() ==> text::has_part(
                add_vecs(out, keys, keys.len()),
                typedef_mark("Vec_"@ + #[trigger] keys[i]),
            ),
        forall|part: Seq<char>|
            text::has_part(out, part) ==> #[trigger] text::has_part(add_vecs(out, keys, keys.len()), part),
        add_vecs(add_vecs(out, keys, keys.len()), keys, keys.len()) == add_vecs(
            out,
            keys,
            keys.len(),
        ),
{
    let all = add_vecs(out, keys, keys.len());
    assert forall|i: int| 0 <= i < keys.len() implies text::has_part(
        all,
        typedef_mark("Vec_"@ + #[trigger] keys[i]),
    ) by {
        lemma_vecs_there(out, keys, keys.len(), i);
    }
    assert forall|part: Seq<char>| text::has_part(out, part) implies #[trigger] text::has_part(all, part) by {
        lemma_vecs_kept(out, keys, keys.len(), part);
    }
    lemma_vecs_settled(all, keys, keys.len());
}

} // verus!
