use vstd::prelude::*;

verus! {

/// The indices a renderer uses when a shape comes without any: one triangle
/// for every three vertices, the last one wrapping around to the first
/// vertices, each index cut to 16 bits.
pub open spec fn default_index(shape_len: nat, j: int) -> u16 {
    (((j / 3) * 3 + j % 3) % (shape_len as int)) as u16
}

/// The number of indices `default_indices` makes: three for each started
/// group of three vertices.
pub open spec fn default_index_count(shape_len: nat) -> nat {
    3 * ((shape_len + 2) / 3)
}

/// Indices for a shape of `shape_len` vertices that has none of its own:
/// triangles `(n, n + 1, n + 2)` for `n = 0, 3, 6, ...`, taken modulo the
/// number of vertices.
pub fn default_indices(shape_len: usize) -> (inds: Vec<u16>)
    requires
        shape_len + 3 <= usize::MAX,
    ensures
        inds@.len() == default_index_count(shape_len as nat),
        forall|j: int|
            0 <= j < inds@.len() ==> #[trigger] inds@[j] == default_index(shape_len as nat, j),
{
    let mut inds: Vec<u16> = Vec::new();
    let mut n: usize = 0;
    while n < shape_len
        invariant
            shape_len + 3 <= usize::MAX,
            n % 3 == 0,
            n <= shape_len + 2,
            inds@.len() == n,
            forall|j: int|
                0 <= j < inds@.len() ==> #[trigger] inds@[j] == default_index(shape_len as nat, j),
        decreases shape_len + 3 - n,
    {
        inds.push(n as u16);
        inds.push(((n + 1) % shape_len) as u16);
        inds.push(((n + 2) % shape_len) as u16);
        proof {
            assert forall|j: int| 0 <= j < inds@.len() implies #[trigger] inds@[j] == default_index(
                shape_len as nat,
                j,
            ) by {
                if j >= n {
                    let o = j - n;
                    assert(j / 3 == n / 3) by {
                        vstd::arithmetic::div_mod::lemma_fundamental_div_mod_converse(
                            j,
                            3,
                            n as int / 3,
                            o,
                        );
                    }
                    assert(j % 3 == o) by {
                        vstd::arithmetic::div_mod::lemma_fundamental_div_mod_converse(
                            j,
                            3,
                            n as int / 3,
                            o,
                        );
                    }
                    if o == 0 {
                        vstd::arithmetic::div_mod::lemma_fundamental_div_mod_converse(
                            n as int,
                            shape_len as int,
                            0,
                            n as int,
                        );
                    }
                }
            }
        }
        n += 3;
    }
    proof {
        assert(n == 3 * ((shape_len + 2) / 3)) by {
            vstd::arithmetic::div_mod::lemma_fundamental_div_mod(shape_len as int + 2, 3);
        }
    }
    inds
}

} // verus!
