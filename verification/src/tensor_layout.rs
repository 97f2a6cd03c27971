use vstd::prelude::*;
use crate::text::{count_message, decimal, decimal_list, push_decimal, push_decimal_list};

verus! {

/// Row-major `batch x features` data read as column-major: element
/// `(r, c)` moves from `r * features + c` to `c * batch + r`.
pub open spec fn column_major_of<T>(flat: Seq<T>, batch: nat, features: nat) -> Seq<T> {
    Seq::new(batch * features, |i: int| flat[(i % batch as int) * features + i / batch as int])
}

/// Column-major `batch x features` data read as row-major.
pub open spec fn row_major_of<T>(col: Seq<T>, batch: nat, features: nat) -> Seq<T> {
    Seq::new(batch * features, |i: int| col[(i % features as int) * batch + i / features as int])
}

proof fn lemma_index_bound(r: int, c: int, batch: int, features: int)
    requires
        0 <= r < batch,
        0 <= c < features,
    ensures
        0 <= c * batch + r < batch * features,
        0 <= r * features + c < batch * features,
        (c * batch + r) % batch == r,
        (c * batch + r) / batch == c,
        (r * features + c) % features == c,
        (r * features + c) / features == r,
{
    assert(0 <= c * batch + r < batch * features) by (nonlinear_arith)
        requires
            0 <= r < batch,
            0 <= c < features,
    ;
    assert(0 <= r * features + c < batch * features) by (nonlinear_arith)
        requires
            0 <= r < batch,
            0 <= c < features,
    ;
    vstd::arithmetic::div_mod::lemma_fundamental_div_mod_converse(c * batch + r, batch, c, r);
    vstd::arithmetic::div_mod::lemma_fundamental_div_mod_converse(r * features + c, features, r, c);
}

/// Lays row-major samples out column by column, as matrix buffers hold them.
pub fn to_column_major<T: Copy>(flat: &Vec<T>, batch: usize, features: usize) -> (r: Result<Vec<T>, String>)
    requires
        batch * features <= usize::MAX,
    ensures
        r is Err <==> flat@.len() != batch * features,
        r matches Err(e) ==> e@ == "dynamic_tensor_to_handle: flat len "@ + decimal(flat@.len()) + " != batch*features "@
            + decimal((batch * features) as nat),
        r matches Ok(v) ==> v@ == column_major_of(flat@, batch as nat, features as nat),
{
    let total = batch * features;
    if flat.len() != total {
        let mut e = "dynamic_tensor_to_handle: flat len ".to_string();
        push_decimal(&mut e, flat.len());
        e.append(" != batch*features ");
        push_decimal(&mut e, total);
        return Err(e);
    }
    let mut out: Vec<T> = Vec::new();
    let mut i: usize = 0;
    while i < total
        invariant
            total == batch * features,
            flat@.len() == total,
            i <= total,
            out@.len() == i,
            forall|j: int| 0 <= j < i ==> out@[j] == #[trigger] column_major_of(flat@, batch as nat, features as nat)[j],
        decreases total - i,
    {
        let r = i % batch;
        let c = i / batch;
        proof {
            assert(batch > 0);
            vstd::arithmetic::div_mod::lemma_fundamental_div_mod(i as int, batch as int);
            assert(0 <= r < batch);
            assert(c < features) by (nonlinear_arith)
                requires
                    i == batch * c + r,
                    i < batch * features,
                    0 <= r,
                    batch > 0,
            ;
            lemma_index_bound(r as int, c as int, batch as int, features as int);
        }
        out.push(flat[r * features + c]);
        i = i + 1;
    }
    Ok(out)
}

/// Reads column-major buffer data back as row-major samples.
pub fn to_row_major<T: Copy>(col: &Vec<T>, batch: usize, features: usize) -> (r: Vec<T>)
    requires
        col@.len() == batch * features,
    ensures
        r@ == row_major_of(col@, batch as nat, features as nat),
{
    let total = col.len();
    let mut out: Vec<T> = Vec::new();
    let mut i: usize = 0;
    while i < total
        invariant
            total == batch * features,
            col@.len() == total,
            i <= total,
            out@.len() == i,
            forall|j: int| 0 <= j < i ==> out@[j] == #[trigger] row_major_of(col@, batch as nat, features as nat)[j],
        decreases total - i,
    {
        let c = i % features;
        let r = i / features;
        proof {
            assert(features > 0);
            vstd::arithmetic::div_mod::lemma_fundamental_div_mod(i as int, features as int);
            assert(r < batch) by (nonlinear_arith)
                requires
                    i == features * r + c,
                    i < batch * features,
                    0 <= c,
                    features > 0,
            ;
            lemma_index_bound(r as int, c as int, batch as int, features as int);
        }
        out.push(col[c * batch + r]);
        i = i + 1;
    }
    out
}

/// Laying data out column by column and reading it back gives the data back.
pub proof fn law_layout_round_trip<T>(flat: Seq<T>, batch: nat, features: nat)
    requires
        flat.len() == batch * features,
    ensures
        row_major_of(column_major_of(flat, batch, features), batch, features) == flat,
{
    let col = column_major_of(flat, batch, features);
    let back = row_major_of(col, batch, features);
    assert forall|i: int| 0 <= i < flat.len() implies back[i] == flat[i] by {
        let c = i % features as int;
        let r = i / features as int;
        assert(features > 0) by (nonlinear_arith)
            requires
                0 <= i < batch * features,
        ;
        vstd::arithmetic::div_mod::lemma_fundamental_div_mod(i, features as int);
        vstd::arithmetic::div_mod::lemma_mod_pos_bound(i, features as int);
        assert(0 <= r < batch) by (nonlinear_arith)
            requires
                i == features * r + c,
                0 <= i < batch * features,
                0 <= c < features,
        ;
        lemma_index_bound(r, c, batch as int, features as int);
    }
    assert(back =~= flat);
}

/// Product of the dimensions of a shape.
pub open spec fn shape_product(s: Seq<usize>) -> nat
    decreases s.len(),
{
    if s.len() == 0 {
        1
    } else {
        shape_product(s.drop_last()) * s.last() as nat
    }
}

/// The product of the dimensions can be computed left to right without overflow.
pub open spec fn product_fits(s: Seq<usize>) -> bool {
    forall|i: int| 0 <= i <= s.len() ==> #[trigger] shape_product(s.take(i)) <= usize::MAX
}

/// Product of the dimensions of a shape.
pub fn feature_count(shape: &[usize]) -> (r: usize)
    requires
        product_fits(shape@),
    ensures
        r == shape_product(shape@),
{
    let mut p: usize = 1;
    let mut i: usize = 0;
    while i < shape.len()
        invariant
            i <= shape@.len(),
            p == shape_product(shape@.take(i as int)),
            product_fits(shape@),
        decreases shape@.len() - i,
    {
        proof {
            assert(shape@.take(i + 1).drop_last() =~= shape@.take(i as int));
            assert(shape_product(shape@.take(i + 1)) <= usize::MAX);
        }
        p = p * shape[i];
        i = i + 1;
    }
    assert(shape@.take(i as int) =~= shape@);
    p
}

/// The batch size of flat data for a tensor of the given per-sample shape,
/// checked as when the data becomes a tensor: the shape has one to four
/// dimensions, a non-zero feature count that divides the data length.
pub fn flat_batch(shape: &[usize], flat_len: usize) -> (r: Result<usize, String>)
    requires
        product_fits(shape@),
    ensures
        r is Err <==> (shape_product(shape@) == 0 || flat_len % shape_product(shape@) as usize != 0
            || shape@.len() < 1 || shape@.len() > 4),
        r matches Ok(b) ==> b == flat_len / shape_product(shape@) as usize,
        r matches Err(e) ==> e@ == if shape_product(shape@) == 0 {
            "flat_to_dynamic_tensor: zero feature_count"@
        } else if flat_len % shape_product(shape@) as usize != 0 {
            "flat_to_dynamic_tensor: flat len "@ + decimal(flat_len as nat) + " not divisible by feature_count "@
                + decimal(shape_product(shape@))
        } else {
            "flat_to_dynamic_tensor: unsupported spatial dims "@ + decimal(shape@.len())
        },
{
    let fc = feature_count(shape);
    if fc == 0 {
        return Err("flat_to_dynamic_tensor: zero feature_count".to_string());
    }
    if flat_len % fc != 0 {
        let mut e = "flat_to_dynamic_tensor: flat len ".to_string();
        push_decimal(&mut e, flat_len);
        e.append(" not divisible by feature_count ");
        push_decimal(&mut e, fc);
        return Err(e);
    }
    let batch = flat_len / fc;
    if shape.len() < 1 || shape.len() > 4 {
        return Err(count_message("flat_to_dynamic_tensor: unsupported spatial dims ", shape.len()));
    }
    Ok(batch)
}

/// Checks that a buffer of `cols` features holds tensors of the given shape.
pub fn check_shape_features(shape: &[usize], cols: usize) -> (r: Result<(), String>)
    requires
        product_fits(shape@),
    ensures
        r is Err <==> shape_product(shape@) != cols,
        r matches Err(e) ==> e@ == "handle_to_dynamic_tensor: shape "@ + decimal_list(shape@) + " product "@
            + decimal(shape_product(shape@)) + " != cols "@ + decimal(cols as nat),
{
    let fc = feature_count(shape);
    if fc != cols {
        let mut e = "handle_to_dynamic_tensor: shape ".to_string();
        push_decimal_list(&mut e, shape);
        e.append(" product ");
        push_decimal(&mut e, fc);
        e.append(" != cols ");
        push_decimal(&mut e, cols);
        return Err(e);
    }
    Ok(())
}

} // verus!
