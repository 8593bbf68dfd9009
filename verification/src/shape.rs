//! Shape arithmetic of burn: the output length of one-dimensional convolution
//! and pooling, and the `reshape`, `permute` and `swap` of a tensor shape.
use vstd::prelude::*;

verus! {

/// The error that burn's shape operations report.
#[verifier::external_type_specification]
#[verifier::external_body]
pub struct ExShapeError(burn_tensor::ShapeError);

/// Length of the output of a one-dimensional convolution, as burn computes it:
/// `(size_in + 2 * padding - dilation * (kernel_size - 1) - 1) / stride + 1`.
pub open spec fn conv_len(kernel_size: nat, stride: nat, padding: nat, dilation: nat, size_in: nat) -> nat
    recommends
        stride > 0,
        kernel_size > 0,
        dilation * (kernel_size - 1) + 1 <= size_in + 2 * padding,
{
    ((size_in + 2 * padding - dilation * (kernel_size - 1) - 1) / (stride as int) + 1) as nat
}

/// Whether a window of `kernel_size` taps spaced `dilation` apart fits in the
/// padded input, and every intermediate of burn's `usize` formula fits.
pub open spec fn window_fits(kernel_size: nat, stride: nat, padding: nat, dilation: nat, size_in: nat) -> bool {
    &&& stride > 0
    &&& kernel_size > 0
    &&& size_in + 2 * padding <= usize::MAX
    &&& dilation * (kernel_size - 1) + 1 <= size_in + 2 * padding
}

/// Length of the output of a one-dimensional pooling, as burn computes it: the
/// same quotient as `conv_len`, rounded up instead of down in `ceil_mode`.
pub open spec fn pool_len(kernel_size: nat, stride: nat, padding: nat, dilation: nat, size_in: nat, ceil_mode: bool) -> nat
    recommends
        window_fits(kernel_size, stride, padding, dilation, size_in),
{
    let numerator = size_in + 2 * padding - dilation * (kernel_size - 1) - 1;
    if ceil_mode {
        ((numerator + stride - 1) / (stride as int) + 1) as nat
    } else {
        (numerator / (stride as int) + 1) as nat
    }
}

/// Calls `burn_tensor::ops::conv::calculate_conv_output_size`, whose body is the
/// formula of `conv_len`; the contract claims that it returns that value on every
/// input on which none of its `usize` operations overflows or underflows.
#[verifier::external_body]
pub(crate) fn conv_output_size(kernel_size: usize, stride: usize, padding: usize, dilation: usize, size_in: usize) -> (r: usize)
    requires
        window_fits(kernel_size as nat, stride as nat, padding as nat, dilation as nat, size_in as nat),
    ensures
        r == conv_len(kernel_size as nat, stride as nat, padding as nat, dilation as nat, size_in as nat),
{
    burn_tensor::ops::conv::calculate_conv_output_size(kernel_size, stride, padding, dilation, size_in)
}

/// Calls `burn_tensor::ops::conv::calculate_pool_output_size`; the contract claims
/// that it returns `pool_len` (floor division, or `div_ceil` in `ceil_mode`, plus one)
/// on every input on which its `usize` arithmetic neither overflows nor underflows.
#[verifier::external_body]
pub(crate) fn pool_output_size(kernel_size: usize, stride: usize, padding: usize, dilation: usize, size_in: usize, ceil_mode: bool) -> (r: usize)
    requires
        window_fits(kernel_size as nat, stride as nat, padding as nat, dilation as nat, size_in as nat),
    ensures
        r == pool_len(kernel_size as nat, stride as nat, padding as nat, dilation as nat, size_in as nat, ceil_mode),
{
    burn_tensor::ops::conv::calculate_pool_output_size(kernel_size, stride, padding, dilation, size_in, ceil_mode)
}

/// Number of elements of a tensor with the given dimensions.
pub open spec fn dims_product(dims: Seq<usize>) -> nat
    decreases dims.len(),
{
    if dims.len() == 0 {
        1
    } else {
        dims_product(dims.drop_last()) * (dims.last() as nat)
    }
}

/// Every prefix product of `dims` fits in a `usize`.
pub open spec fn prefix_products_fit(dims: Seq<usize>) -> bool {
    forall|k: int| 0 <= k <= dims.len() ==> #[trigger] dims_product(dims.take(k)) <= usize::MAX
}

/// Size that a reshape argument fixes at position `i`: a positive argument is
/// itself, `0` copies the source's dimension, `-1` (to be inferred) counts as one.
pub open spec fn fixed_size(source: Seq<usize>, arg: i64, i: int) -> nat {
    if arg > 0 {
        arg as nat
    } else if arg == 0 {
        source[i] as nat
    } else {
        1
    }
}

/// The size that each reshape argument fixes.
pub open spec fn fixed_sizes(source: Seq<usize>, args: Seq<i64>) -> Seq<usize> {
    Seq::new(args.len(), |i: int| fixed_size(source, args[i], i) as usize)
}

/// Number of arguments `-1` (dimensions to infer).
pub open spec fn infer_count(args: Seq<i64>) -> nat
    decreases args.len(),
{
    if args.len() == 0 {
        0
    } else {
        infer_count(args.drop_last()) + if args.last() == -1 { 1nat } else { 0nat }
    }
}

/// burn accepts the reshape of a tensor of dimensions `source` by `args`: no
/// argument is below `-1`, at most one is `-1`, and the element count is kept
/// (exactly, or by a whole inferred dimension).
pub open spec fn reshape_accepts(source: Seq<usize>, args: Seq<i64>) -> bool {
    let known = dims_product(fixed_sizes(source, args));
    &&& forall|i: int| 0 <= i < args.len() ==> args[i] >= -1
    &&& infer_count(args) <= 1
    &&& infer_count(args) == 0 ==> known == dims_product(source)
    &&& infer_count(args) == 1 ==> known > 0 && dims_product(source) % known == 0
}

/// The dimensions that reshaping `source` by `args` gives.
pub open spec fn reshape_result(source: Seq<usize>, args: Seq<i64>) -> Seq<usize> {
    let known = dims_product(fixed_sizes(source, args));
    Seq::new(
        args.len(),
        |i: int|
            if args[i] == -1 {
                (dims_product(source) / known) as usize
            } else {
                fixed_size(source, args[i], i) as usize
            },
    )
}

/// The inputs on which burn's `Shape::reshape` returns instead of panicking.
pub open spec fn reshape_returns(source: Seq<usize>, args: Seq<i64>) -> bool {
    &&& forall|i: int| 0 <= i < args.len() ==> isize::MIN <= #[trigger] args[i] <= isize::MAX
    &&& forall|i: int| 0 <= i < args.len() && args[i] == 0 ==> i < source.len()
    &&& prefix_products_fit(source)
    &&& prefix_products_fit(fixed_sizes(source, args))
    &&& !(reshape_infers_once(args) && dims_product(fixed_sizes(source, args)) == 0
        && dims_product(source) == 0)
}

/// Every argument is at least `-1` and exactly one is `-1`.
pub open spec fn reshape_infers_once(args: Seq<i64>) -> bool {
    &&& forall|i: int| 0 <= i < args.len() ==> args[i] >= -1
    &&& infer_count(args) == 1
}

/// Calls burn's `Shape::reshape` on the shape with dimensions `source`.
/// The contract claims what the source shows: the result is `Ok` exactly when
/// `reshape_accepts`, and then its dimensions are `reshape_result` (`0` copies
/// the source's dimension, `-1` is inferred from the element count).
#[verifier::external_body]
pub(crate) fn shape_reshape(source: &Vec<usize>, args: &Vec<i64>) -> (r: Result<Vec<usize>, burn_tensor::ShapeError>)
    requires
        reshape_returns(source@, args@),
    ensures
        r is Ok <==> reshape_accepts(source@, args@),
        r matches Ok(d) ==> d@ == reshape_result(source@, args@),
{
    burn_tensor::Shape { dims: source.clone() }.reshape(args.as_slice()).map(|s| s.dims)
}

/// Calls burn's `Shape::permute`: `Ok` exactly when there are as many axes as
/// dimensions, and then the `i`-th dimension is the source's `axes[i]`-th.
#[verifier::external_body]
pub(crate) fn shape_permute(source: &Vec<usize>, axes: &Vec<usize>) -> (r: Result<Vec<usize>, burn_tensor::ShapeError>)
    requires
        axes.len() == source.len() ==> forall|i: int| 0 <= i < axes.len() ==> #[trigger] axes[i] < source.len(),
    ensures
        r is Ok <==> axes.len() == source.len(),
        r matches Ok(d) ==> d@ == Seq::new(axes.len() as nat, |i: int| source@[axes@[i] as int]),
{
    burn_tensor::Shape { dims: source.clone() }.permute(axes.as_slice()).map(|s| s.dims)
}

/// Both dimensions to exchange are below the rank.
pub open spec fn swap_in_range(dims: Seq<usize>, dim1: usize, dim2: usize) -> bool {
    dim1 < dims.len() && dim2 < dims.len()
}

/// `dims` with the dimensions at `dim1` and `dim2` exchanged.
pub open spec fn swapped(dims: Seq<usize>, dim1: int, dim2: int) -> Seq<usize> {
    dims.update(dim1, dims[dim2]).update(dim2, dims[dim1])
}

/// Calls burn's `Shape::swap`: `Ok` exactly when both dimensions are in range,
/// and then the two dimensions are exchanged. burn panics when a dimension equals
/// the rank while the other is not beyond it; `requires` leaves that out.
#[verifier::external_body]
pub(crate) fn shape_swap(source: &Vec<usize>, dim1: usize, dim2: usize) -> (r: Result<Vec<usize>, burn_tensor::ShapeError>)
    requires
        !(dim1 <= source.len() && dim2 <= source.len() && (dim1 == source.len() || dim2 == source.len())),
    ensures
        r is Ok <==> swap_in_range(source@, dim1, dim2),
        r matches Ok(d) ==> d@ == swapped(source@, dim1 as int, dim2 as int),
{
    burn_tensor::Shape { dims: source.clone() }.swap(dim1, dim2).map(|s| s.dims)
}

/// The dimensions held, if any.
pub open spec fn opt_view(o: Option<Vec<usize>>) -> Option<Seq<usize>> {
    match o {
        Some(v) => Some(v@),
        None => None,
    }
}

/// What reshaping a tensor of dimensions `source` by `args` gives: the new
/// dimensions, or `None` where burn panics or refuses the arguments.
pub open spec fn reshape_spec(source: Seq<usize>, args: Seq<i64>) -> Option<Seq<usize>> {
    if reshape_returns(source, args) && reshape_accepts(source, args) {
        Some(reshape_result(source, args))
    } else {
        None
    }
}

/// What permuting a tensor of dimensions `source` by `axes` gives.
pub open spec fn permute_spec(source: Seq<usize>, axes: Seq<usize>) -> Option<Seq<usize>> {
    if axes.len() == source.len() && forall|i: int| 0 <= i < axes.len() ==> #[trigger] axes[i] < source.len() {
        Some(Seq::new(axes.len(), |i: int| source[axes[i] as int]))
    } else {
        None
    }
}

/// What exchanging two dimensions of a tensor of dimensions `source` gives.
pub open spec fn swap_spec(source: Seq<usize>, dim1: usize, dim2: usize) -> Option<Seq<usize>> {
    if swap_in_range(source, dim1, dim2) {
        Some(swapped(source, dim1 as int, dim2 as int))
    } else {
        None
    }
}

/// The prefix product of `dims` one step further.
pub proof fn lemma_product_step(dims: Seq<usize>, i: int)
    requires
        0 <= i < dims.len(),
    ensures
        dims_product(dims.take(i + 1)) == dims_product(dims.take(i)) * (dims[i] as nat),
{
    assert(dims.take(i + 1).drop_last() =~= dims.take(i));
    assert(dims.take(i + 1).last() == dims[i]);
}

/// Computes the products of every prefix of `dims`; `None` exactly when one of
/// them exceeds `usize::MAX`, else the product of all of them.
pub fn checked_product(dims: &Vec<usize>) -> (r: Option<usize>)
    ensures
        r is Some <==> prefix_products_fit(dims@),
        r matches Some(p) ==> p == dims_product(dims@),
{
    let mut p: usize = 1;
    let mut i: usize = 0;
    assert(dims@.take(0) =~= Seq::<usize>::empty());
    while i < dims.len()
        invariant
            i <= dims.len(),
            p == dims_product(dims@.take(i as int)),
            forall|k: int| 0 <= k <= i ==> #[trigger] dims_product(dims@.take(k)) <= usize::MAX,
        decreases dims.len() - i,
    {
        proof {
            lemma_product_step(dims@, i as int);
        }
        match p.checked_mul(dims[i]) {
            Some(q) => {
                p = q;
                i = i + 1;
            },
            None => {
                assert(dims_product(dims@.take(i + 1)) > usize::MAX);
                return None;
            },
        }
    }
    assert(dims@.take(dims.len() as int) =~= dims@);
    Some(p)
}

/// The sizes that `args` fix, computed; `None` where a `0` argument has no
/// source dimension to copy.
fn fixed_sizes_of(source: &Vec<usize>, args: &Vec<i64>) -> (r: Option<Vec<usize>>)
    requires
        forall|i: int| 0 <= i < args.len() ==> isize::MIN <= #[trigger] args[i] <= isize::MAX,
    ensures
        r is Some <==> forall|i: int| 0 <= i < args.len() && args[i] == 0 ==> i < source.len(),
        r matches Some(v) ==> v@ == fixed_sizes(source@, args@),
{
    let mut v: Vec<usize> = Vec::new();
    let mut i: usize = 0;
    while i < args.len()
        invariant
            i <= args.len(),
            forall|k: int| 0 <= k < args.len() ==> isize::MIN <= #[trigger] args[k] <= isize::MAX,
            forall|k: int| 0 <= k < i && args[k] == 0 ==> k < source.len(),
            v@ =~= fixed_sizes(source@, args@).take(i as int),
        decreases args.len() - i,
    {
        let a = args[i];
        let d: usize = if a > 0 {
            proof {
                assert(a <= isize::MAX);
            }
            a as usize
        } else if a == 0 {
            if i >= source.len() {
                return None;
            }
            source[i]
        } else {
            1
        };
        v.push(d);
        i = i + 1;
    }
    Some(v)
}

/// Counts the arguments `-1`.
fn count_infer(args: &Vec<i64>) -> (r: usize)
    ensures
        r == infer_count(args@),
{
    let mut n: usize = 0;
    let mut i: usize = 0;
    assert(args@.take(0) =~= Seq::<i64>::empty());
    while i < args.len()
        invariant
            i <= args.len(),
            n == infer_count(args@.take(i as int)),
            n <= i,
        decreases args.len() - i,
    {
        assert(args@.take(i + 1).drop_last() =~= args@.take(i as int));
        if args[i] == -1 {
            n = n + 1;
        }
        i = i + 1;
    }
    assert(args@.take(args.len() as int) =~= args@);
    n
}

/// Reshapes the dimensions `source` by `args` with burn's `Shape::reshape`,
/// first checking every condition under which burn would panic.
pub fn checked_reshape(source: &Vec<usize>, args: &Vec<i64>) -> (r: Option<Vec<usize>>)
    ensures
        opt_view(r) == reshape_spec(source@, args@),
{
    let mut i: usize = 0;
    while i < args.len()
        invariant
            i <= args.len(),
            forall|k: int| 0 <= k < i ==> isize::MIN <= #[trigger] args[k] <= isize::MAX,
        decreases args.len() - i,
    {
        if args[i] < isize::MIN as i64 || args[i] > isize::MAX as i64 {
            return None;
        }
        i = i + 1;
    }
    let fixed = match fixed_sizes_of(source, args) {
        Some(f) => f,
        None => return None,
    };
    let src_size = match checked_product(source) {
        Some(p) => p,
        None => return None,
    };
    let known = match checked_product(&fixed) {
        Some(p) => p,
        None => return None,
    };
    let mut all_valid = true;
    let mut j: usize = 0;
    while j < args.len()
        invariant
            j <= args.len(),
            all_valid <==> forall|k: int| 0 <= k < j ==> #[trigger] args[k] >= -1,
        decreases args.len() - j,
    {
        if args[j] < -1 {
            all_valid = false;
        }
        j = j + 1;
    }
    let infers = count_infer(args);
    if all_valid && infers == 1 && known == 0 && src_size == 0 {
        return None;
    }
    match shape_reshape(source, args) {
        Ok(d) => Some(d),
        Err(_) => None,
    }
}

/// Permutes the dimensions `source` by `axes` with burn's `Shape::permute`,
/// first checking that every axis is in range.
pub fn checked_permute(source: &Vec<usize>, axes: &Vec<usize>) -> (r: Option<Vec<usize>>)
    ensures
        opt_view(r) == permute_spec(source@, axes@),
{
    if axes.len() != source.len() {
        return None;
    }
    let mut i: usize = 0;
    while i < axes.len()
        invariant
            i <= axes.len(),
            forall|k: int| 0 <= k < i ==> #[trigger] axes[k] < source.len(),
        decreases axes.len() - i,
    {
        if axes[i] >= source.len() {
            return None;
        }
        i = i + 1;
    }
    match shape_permute(source, axes) {
        Ok(d) => Some(d),
        Err(_) => None,
    }
}

/// Exchanges two dimensions with burn's `Shape::swap`, first checking that both
/// are in range.
pub fn checked_swap(source: &Vec<usize>, dim1: usize, dim2: usize) -> (r: Option<Vec<usize>>)
    ensures
        opt_view(r) == swap_spec(source@, dim1, dim2),
{
    if dim1 >= source.len() || dim2 >= source.len() {
        return None;
    }
    match shape_swap(source, dim1, dim2) {
        Ok(d) => Some(d),
        Err(_) => None,
    }
}

/// With no zero dimension, every prefix product is at most the whole product.
pub proof fn lemma_prefix_products_positive(dims: Seq<usize>)
    requires
        forall|i: int| 0 <= i < dims.len() ==> #[trigger] dims[i] >= 1,
    ensures
        forall|k: int| 0 <= k <= dims.len() ==> #[trigger] dims_product(dims.take(k)) <= dims_product(dims),
    decreases dims.len(),
{
    assert forall|k: int| 0 <= k <= dims.len() implies #[trigger] dims_product(dims.take(k)) <= dims_product(dims) by {
        lemma_prefix_product_grows(dims, k);
    }
}

/// Prefix products grow along a sequence with no zero dimension.
proof fn lemma_prefix_product_grows(dims: Seq<usize>, k: int)
    requires
        forall|i: int| 0 <= i < dims.len() ==> #[trigger] dims[i] >= 1,
        0 <= k <= dims.len(),
    ensures
        dims_product(dims.take(k)) <= dims_product(dims),
    decreases dims.len() - k,
{
    if k < dims.len() {
        lemma_prefix_product_grows(dims, k + 1);
        lemma_product_step(dims, k);
        let a = dims_product(dims.take(k));
        let b = dims[k] as nat;
        assert(a <= a * b) by (nonlinear_arith)
            requires
                b >= 1,
        ;
    } else {
        assert(dims.take(k) =~= dims);
    }
}

/// With no zero dimension and a product that fits, every prefix product fits.
pub proof fn lemma_prefix_products_fit(dims: Seq<usize>)
    requires
        forall|i: int| 0 <= i < dims.len() ==> #[trigger] dims[i] >= 1,
        dims_product(dims) <= usize::MAX,
    ensures
        prefix_products_fit(dims),
{
    lemma_prefix_products_positive(dims);
}

/// The product of three dimensions.
pub proof fn lemma_product_of_three(d: Seq<usize>)
    requires
        d.len() == 3,
    ensures
        dims_product(d) == (d[0] as nat) * (d[1] as nat) * (d[2] as nat),
{
    let d2 = d.drop_last();
    let d1 = d2.drop_last();
    let d0 = d1.drop_last();
    assert(d0.len() == 0);
    assert(dims_product(d0) == 1);
    assert(dims_product(d1) == dims_product(d0) * (d1.last() as nat));
    assert(d1.last() == d[0]);
    assert(dims_product(d2) == dims_product(d1) * (d2.last() as nat));
    assert(d2.last() == d[1]);
    assert(dims_product(d) == dims_product(d2) * (d.last() as nat));
}

/// The product of four dimensions.
pub proof fn lemma_product_of_four(d: Seq<usize>)
    requires
        d.len() == 4,
    ensures
        dims_product(d) == (d[0] as nat) * (d[1] as nat) * (d[2] as nat) * (d[3] as nat),
{
    let d3 = d.drop_last();
    lemma_product_of_three(d3);
    assert(dims_product(d) == dims_product(d3) * (d.last() as nat));
}

/// No argument is `-1` when none is counted.
proof fn lemma_infer_none(args: Seq<i64>)
    requires
        infer_count(args) == 0,
    ensures
        forall|i: int| 0 <= i < args.len() ==> args[i] != -1,
    decreases args.len(),
{
    if args.len() > 0 {
        lemma_infer_none(args.drop_last());
        assert forall|i: int| 0 <= i < args.len() implies args[i] != -1 by {
            if i < args.len() - 1 {
                assert(args[i] == args.drop_last()[i]);
            }
        }
    }
}

/// Exactly one argument is `-1` when one is counted.
proof fn lemma_infer_one(args: Seq<i64>) -> (k: int)
    requires
        infer_count(args) == 1,
    ensures
        0 <= k < args.len(),
        args[k] == -1,
        forall|i: int| 0 <= i < args.len() && i != k ==> args[i] != -1,
    decreases args.len(),
{
    let p = args.drop_last();
    if args.last() == -1 {
        lemma_infer_none(p);
        assert forall|i: int| 0 <= i < args.len() && i != args.len() - 1 implies args[i] != -1 by {
            assert(args[i] == p[i]);
        }
        args.len() - 1
    } else {
        let k = lemma_infer_one(p);
        assert forall|i: int| 0 <= i < args.len() && i != k implies args[i] != -1 by {
            if i < args.len() - 1 {
                assert(args[i] == p[i]);
            }
        }
        k
    }
}

/// Replacing one dimension scales the product by the new over the old size.
proof fn lemma_product_update(d: Seq<usize>, i: int, v: usize)
    requires
        0 <= i < d.len(),
    ensures
        dims_product(d.update(i, v)) * (d[i] as nat) == dims_product(d) * (v as nat),
    decreases d.len(),
{
    let u = d.update(i, v);
    let p = d.drop_last();
    let pu = u.drop_last();
    let a = dims_product(p);
    if i == d.len() - 1 {
        assert(pu =~= p);
        let x = d[i] as nat;
        let y = v as nat;
        assert(a * y * x == a * x * y) by (nonlinear_arith);
    } else {
        assert(pu =~= p.update(i, v));
        lemma_product_update(p, i, v);
        let l = d.last() as nat;
        let x = d[i] as nat;
        let y = v as nat;
        let b = dims_product(pu);
        assert(b * l * x == a * l * y) by (nonlinear_arith)
            requires
                b * x == a * y,
        ;
    }
}

/// A reshape that burn performs keeps the number of elements, gives one
/// dimension per argument, keeps every positive argument as its size and copies
/// the source's dimension for every `0`.
pub proof fn lemma_reshape_keeps_elements(source: Seq<usize>, args: Seq<i64>)
    requires
        reshape_spec(source, args) is Some,
    ensures
        ({
            let r = reshape_spec(source, args).unwrap();
            &&& r.len() == args.len()
            &&& dims_product(r) == dims_product(source)
            &&& forall|i: int| 0 <= i < args.len() && args[i] > 0 ==> r[i] == args[i]
            &&& forall|i: int| 0 <= i < args.len() && args[i] == 0 ==> r[i] == source[i]
        }),
{
    let r = reshape_result(source, args);
    let f = fixed_sizes(source, args);
    let known = dims_product(f);
    let src = dims_product(source);
    assert forall|i: int| 0 <= i < args.len() && args[i] > 0 implies r[i] == args[i] by {
        assert(args[i] <= isize::MAX);
    }
    if infer_count(args) == 0 {
        lemma_infer_none(args);
        assert(r =~= f);
    } else {
        let k = lemma_infer_one(args);
        let q = (src / known) as usize;
        assert(src <= usize::MAX) by {
            assert(source.take(source.len() as int) =~= source);
        }
        assert(src / known <= src) by (nonlinear_arith)
            requires
                known > 0,
        ;
        assert(q as nat == src / known);
        assert(r =~= f.update(k, q));
        lemma_product_update(f, k, q);
        assert(f[k] == 1);
        let pu = dims_product(f.update(k, q));
        assert(pu * (f[k] as nat) == known * (q as nat));
        assert(pu == known * (q as nat)) by (nonlinear_arith)
            requires
                pu * (f[k] as nat) == known * (q as nat),
                f[k] == 1,
        ;
        assert(known * (src / known) == src) by (nonlinear_arith)
            requires
                known > 0,
                src % known == 0,
        ;
        assert(dims_product(r) == known * (q as nat));
    }
}

/// Exchanging the same two dimensions twice gives the shape back.
pub proof fn lemma_swap_twice(d: Seq<usize>, dim1: usize, dim2: usize)
    requires
        swap_spec(d, dim1, dim2) is Some,
    ensures
        swap_spec(swap_spec(d, dim1, dim2).unwrap(), dim1, dim2) == Some(d),
        swap_spec(d, dim1, dim2).unwrap()[dim1 as int] == d[dim2 as int],
        swap_spec(d, dim1, dim2).unwrap()[dim2 as int] == d[dim1 as int],
{
    let e = swap_spec(d, dim1, dim2).unwrap();
    assert(swapped(e, dim1 as int, dim2 as int) =~= d);
}

} // verus!
