use linal::engine::kernels::{
    add, add_relaxed, cosine_similarity_1d, distance_1d, divide, divide_relaxed, dot_1d, flatten,
    index, index_to_scalar, l2_norm_1d, matmul, multiply, multiply_relaxed, normalize_1d, reshape,
    scalar_mul, slice, slice_multi, stack, sub, sub_relaxed, transpose, SliceSpec,
};
use linal::tensor::{Shape, Tensor, TensorId};
use std::sync::Arc;

fn bits(values: Vec<f32>) -> Vec<u32> {
    values.iter().map(|x| x.to_bits()).collect()
}

fn floats(tensor: &Tensor) -> Vec<f32> {
    tensor.data_ref().iter().map(|b| f32::from_bits(*b)).collect()
}

fn create_matrix(id: u64, rows: usize, cols: usize, data: Vec<f32>) -> Tensor {
    let shape = Shape::new(vec![rows, cols]);
    Tensor::new(TensorId(id), shape, bits(data)).unwrap()
}

fn create_vector(id: u64, data: Vec<f32>) -> Tensor {
    let shape = Shape::new(vec![data.len()]);
    Tensor::new(TensorId(id), shape, bits(data)).unwrap()
}

fn tensor_1d(id: u64, vals: Vec<f32>) -> Tensor {
    create_vector(id, vals)
}

fn scalar(id: u64, value: f32) -> Tensor {
    Tensor::new(TensorId(id), Shape::new(vec![]), bits(vec![value])).unwrap()
}

#[test]
fn test_add_simple() {
    let a = tensor_1d(1, vec![1.0, 2.0, 3.0]);
    let b = tensor_1d(2, vec![4.0, 5.0, 6.0]);
    let result = add(&a, &b, TensorId(3)).unwrap();

    assert_eq!(result.shape().dims, vec![3]);
    assert_eq!(floats(&result), vec![5.0, 7.0, 9.0]);
    assert_eq!(result.id(), TensorId(3));
}

#[test]
fn test_multiply_and_divide() {
    let a = tensor_1d(1, vec![1.0, 2.0, 3.0]);
    let b = tensor_1d(2, vec![4.0, 5.0, 6.0]);

    let prod = multiply(&a, &b, TensorId(3)).unwrap();
    assert_eq!(floats(&prod), vec![4.0, 10.0, 18.0]);

    let ratio = divide(&b, &a, TensorId(4)).unwrap();
    assert_eq!(floats(&ratio), vec![4.0, 2.5, 2.0]);
}

#[test]
fn test_cosine_and_distance_and_normalize() {
    let a = tensor_1d(1, vec![1.0, 0.0, 0.0]);
    let b = tensor_1d(2, vec![1.0, 1.0, 0.0]);

    let sim = f32::from_bits(cosine_similarity_1d(&a, &b).unwrap());
    let expected_sim = 1.0 / 2f32.sqrt();
    assert!((sim - expected_sim).abs() < 1e-6);

    let dist = f32::from_bits(distance_1d(&a, &b).unwrap());
    let expected_dist =
        ((1.0_f32 - 1.0_f32).powi(2) + (0.0_f32 - 1.0_f32).powi(2) + 0.0f32).sqrt();
    assert!((dist - expected_dist).abs() < 1e-6);

    let n = normalize_1d(&b, TensorId(3)).unwrap();
    let norm_n = f32::from_bits(l2_norm_1d(&n).unwrap());
    assert!((norm_n - 1.0).abs() < 1e-6);
}

#[test]
fn test_stack() {
    let a = tensor_1d(1, vec![1.0, 2.0]);
    let b = tensor_1d(2, vec![3.0, 4.0]);

    let stacked = stack(&[&a, &b], 0, TensorId(3)).unwrap();
    assert_eq!(stacked.shape().dims, vec![2, 2]);
    assert_eq!(floats(&stacked), vec![1.0, 2.0, 3.0, 4.0]);
}

#[test]
fn test_matmul_basic() {
    let a = create_matrix(1, 2, 3, vec![1.0, 2.0, 3.0, 4.0, 5.0, 6.0]);
    let b = create_matrix(2, 3, 2, vec![7.0, 8.0, 9.0, 10.0, 11.0, 12.0]);
    let c = matmul(&a, &b, TensorId(3)).unwrap();
    assert_eq!(c.shape().dims, vec![2, 2]);
    assert_eq!(floats(&c), vec![58.0, 64.0, 139.0, 154.0]);
}

#[test]
fn test_matmul_identity() {
    let a = create_matrix(1, 2, 2, vec![1.0, 2.0, 3.0, 4.0]);
    let identity = create_matrix(2, 2, 2, vec![1.0, 0.0, 0.0, 1.0]);
    let result = matmul(&a, &identity, TensorId(3)).unwrap();
    assert_eq!(floats(&result), floats(&a));
}

#[test]
fn test_matmul_dimension_mismatch() {
    let a = create_matrix(1, 2, 3, vec![1.0, 2.0, 3.0, 4.0, 5.0, 6.0]);
    let b = create_matrix(2, 2, 2, vec![1.0, 2.0, 3.0, 4.0]);
    let result = matmul(&a, &b, TensorId(3));
    assert!(result.is_err());
}

#[test]
fn test_transpose() {
    let a = create_matrix(1, 2, 3, vec![1.0, 2.0, 3.0, 4.0, 5.0, 6.0]);
    let a_t = transpose(&a, TensorId(2)).unwrap();
    assert_eq!(a_t.shape().dims, vec![3, 2]);
    assert_eq!(floats(&a_t), vec![1.0, 4.0, 2.0, 5.0, 3.0, 6.0,]);
}

#[test]
fn test_transpose_square() {
    let a = create_matrix(1, 3, 3, vec![1.0, 2.0, 3.0, 4.0, 5.0, 6.0, 7.0, 8.0, 9.0]);
    let a_t = transpose(&a, TensorId(2)).unwrap();
    assert_eq!(a_t.shape().dims, vec![3, 3]);
    assert_eq!(floats(&a_t), vec![1.0, 4.0, 7.0, 2.0, 5.0, 8.0, 3.0, 6.0, 9.0,]);
}

#[test]
fn test_reshape() {
    let a = create_matrix(1, 2, 3, vec![1.0, 2.0, 3.0, 4.0, 5.0, 6.0]);

    let reshaped = reshape(&a, Shape::new(vec![3, 2]), TensorId(2)).unwrap();
    assert_eq!(reshaped.shape().dims, vec![3, 2]);
    assert_eq!(floats(&reshaped), vec![1.0, 2.0, 3.0, 4.0, 5.0, 6.0]);

    let reshaped2 = reshape(&a, Shape::new(vec![1, 6]), TensorId(3)).unwrap();
    assert_eq!(reshaped2.shape().dims, vec![1, 6]);

    let reshaped3 = reshape(&a, Shape::new(vec![6, 1]), TensorId(4)).unwrap();
    assert_eq!(reshaped3.shape().dims, vec![6, 1]);
}

#[test]
fn test_reshape_invalid() {
    let a = create_matrix(1, 2, 3, vec![1.0, 2.0, 3.0, 4.0, 5.0, 6.0]);
    let result = reshape(&a, Shape::new(vec![2, 2]), TensorId(2));
    assert!(result.is_err());
}

#[test]
fn test_flatten() {
    let a = create_matrix(1, 2, 3, vec![1.0, 2.0, 3.0, 4.0, 5.0, 6.0]);
    let flat = flatten(&a, TensorId(2)).unwrap();
    assert_eq!(flat.shape().dims, vec![6]);
    assert_eq!(flat.shape().rank(), 1);
    assert_eq!(floats(&flat), vec![1.0, 2.0, 3.0, 4.0, 5.0, 6.0]);
}

#[test]
fn test_slice_vector() {
    let v = create_vector(1, vec![1.0, 2.0, 3.0, 4.0, 5.0]);
    let sliced = slice(&v, 0, 1, 4, TensorId(2)).unwrap();
    assert_eq!(sliced.shape().dims, vec![3]);
    assert_eq!(floats(&sliced), vec![2.0, 3.0, 4.0]);
}

#[test]
fn test_slice_matrix_rows() {
    let m = create_matrix(1, 3, 2, vec![1.0, 2.0, 3.0, 4.0, 5.0, 6.0]);
    let sliced = slice(&m, 0, 1, 3, TensorId(2)).unwrap();
    assert_eq!(sliced.shape().dims, vec![2, 2]);
    assert_eq!(floats(&sliced), vec![3.0, 4.0, 5.0, 6.0]);
}

#[test]
fn test_slice_matrix_cols() {
    let m = create_matrix(1, 2, 3, vec![1.0, 2.0, 3.0, 4.0, 5.0, 6.0]);
    let sliced = slice(&m, 1, 1, 3, TensorId(2)).unwrap();
    assert_eq!(sliced.shape().dims, vec![2, 2]);
    assert_eq!(floats(&sliced), vec![2.0, 3.0, 5.0, 6.0]);
}

#[test]
fn test_index_vector() {
    let v = create_vector(1, vec![10.0, 20.0, 30.0, 40.0]);
    assert_eq!(f32::from_bits(index(&v, &[0]).unwrap()), 10.0);
    assert_eq!(f32::from_bits(index(&v, &[2]).unwrap()), 30.0);
    assert_eq!(f32::from_bits(index(&v, &[3]).unwrap()), 40.0);
}

#[test]
fn test_index_matrix() {
    let m = create_matrix(1, 2, 3, vec![1.0, 2.0, 3.0, 4.0, 5.0, 6.0]);
    assert_eq!(f32::from_bits(index(&m, &[0, 0]).unwrap()), 1.0);
    assert_eq!(f32::from_bits(index(&m, &[0, 2]).unwrap()), 3.0);
    assert_eq!(f32::from_bits(index(&m, &[1, 1]).unwrap()), 5.0);
    assert_eq!(f32::from_bits(index(&m, &[1, 2]).unwrap()), 6.0);
}

#[test]
fn test_index_out_of_bounds() {
    let v = create_vector(1, vec![1.0, 2.0, 3.0]);
    let result = index(&v, &[5]);
    assert!(result.is_err());
}

#[test]
fn test_matrix_chain_operations() {
    let a = create_matrix(1, 2, 3, vec![1.0, 2.0, 3.0, 4.0, 5.0, 6.0]);
    let a_t = transpose(&a, TensorId(2)).unwrap();
    assert_eq!(a_t.shape().dims, vec![3, 2]);
    let result = matmul(&a, &a_t, TensorId(3)).unwrap();
    assert_eq!(result.shape().dims, vec![2, 2]);
    assert_eq!(floats(&result), vec![14.0, 32.0, 32.0, 77.0]);
}

#[test]
fn test_flatten_then_reshape() {
    let m = create_matrix(1, 2, 3, vec![1.0, 2.0, 3.0, 4.0, 5.0, 6.0]);
    let flat = flatten(&m, TensorId(2)).unwrap();
    assert_eq!(flat.shape().dims, vec![6]);
    let reshaped = reshape(&flat, Shape::new(vec![3, 2]), TensorId(3)).unwrap();
    assert_eq!(reshaped.shape().dims, vec![3, 2]);
    assert_eq!(floats(&reshaped), vec![1.0, 2.0, 3.0, 4.0, 5.0, 6.0]);
}

#[test]
fn test_from_shared() {
    let data = Arc::new(bits(vec![1.0, 2.0, 3.0, 4.0]));
    let shape = Shape::new(vec![2, 2]);
    let id = TensorId(1);

    let tensor =
        Tensor::from_shared(id, shape.clone(), data.clone()).expect("Should create tensor");

    assert_eq!(tensor.len(), 4);
    assert_eq!(tensor.rank(), 2);
    assert_eq!(floats(&tensor), vec![1.0, 2.0, 3.0, 4.0]);
    assert!(tensor.has_shared_data());
    assert!(Arc::ptr_eq(&tensor.share(), &data));
}

#[test]
fn test_share_from_owned() {
    let data = bits(vec![1.0, 2.0, 3.0]);
    let shape = Shape::new(vec![3]);
    let id = TensorId(2);
    let tensor = Tensor::new(id, shape, data).expect("Should create tensor");
    let shared = tensor.share();
    assert_eq!(*shared, bits(vec![1.0, 2.0, 3.0]));
}

#[test]
fn test_share_from_shared() {
    let data = Arc::new(bits(vec![10.0, 20.0]));
    let shape = Shape::new(vec![2]);
    let id = TensorId(3);
    let tensor = Tensor::from_shared(id, shape, data.clone()).expect("Should create tensor");
    let shared_again = tensor.share();
    assert!(Arc::ptr_eq(&data, &shared_again));
}

#[test]
fn test_copy_on_write() {
    let data = Arc::new(bits(vec![1.0, 2.0, 3.0]));
    let shape = Shape::new(vec![3]);
    let id = TensorId(4);
    let mut tensor =
        Tensor::from_shared(id, shape, data.clone()).expect("Should create tensor");

    assert!(tensor.has_shared_data());

    tensor.set(0, 100.0f32.to_bits());

    assert!(!tensor.has_shared_data());
    assert!(!tensor.is_empty());
    assert_eq!(floats(&tensor)[0], 100.0);
    assert_eq!(floats(&tensor), vec![100.0, 2.0, 3.0]);

    assert_eq!(*data, bits(vec![1.0, 2.0, 3.0]));
}

#[test]
fn test_tensor_new_checks_length() {
    assert!(Tensor::new(TensorId(1), Shape::new(vec![2, 2]), bits(vec![1.0, 2.0, 3.0])).is_err());
    assert!(Tensor::new(TensorId(1), Shape::new(vec![]), bits(vec![1.0])).is_ok());
    assert!(Tensor::new(TensorId(1), Shape::new(vec![]), vec![]).is_err());
    assert!(Tensor::new(TensorId(1), Shape::new(vec![0, 5]), vec![]).is_ok());
    assert!(Tensor::new(TensorId(1), Shape::new(vec![usize::MAX, 2]), vec![]).is_err());
    assert!(Tensor::new(TensorId(1), Shape::new(vec![usize::MAX, 2, 0]), vec![]).is_ok());
    assert_eq!(Shape::new(vec![2, 3, 4]).num_elements(), 24);
    assert_eq!(Shape::new(vec![]).num_elements(), 1);
    assert_eq!(Shape::new(vec![usize::MAX, 2]).checked_num_elements(), None);
    assert_eq!(Shape::new(vec![usize::MAX, 2, 0]).checked_num_elements(), Some(0));
}

#[test]
fn test_strict_ops_need_equal_shapes() {
    let a = tensor_1d(1, vec![1.0, 2.0, 3.0]);
    let b = tensor_1d(2, vec![1.0, 2.0]);
    assert!(add(&a, &b, TensorId(3)).is_err());
    assert!(sub(&a, &b, TensorId(3)).is_err());
    assert!(multiply(&a, &b, TensorId(3)).is_err());
    assert!(divide(&a, &b, TensorId(3)).is_err());
    let c = tensor_1d(3, vec![0.5, 0.5, 0.5]);
    assert_eq!(floats(&sub(&a, &c, TensorId(4)).unwrap()), vec![0.5, 1.5, 2.5]);
}

#[test]
fn test_divide_by_zero_fails() {
    let a = tensor_1d(1, vec![1.0, 2.0]);
    let z = tensor_1d(2, vec![1.0, 0.0]);
    let nz = tensor_1d(3, vec![1.0, -0.0]);
    assert!(divide(&a, &z, TensorId(3)).is_err());
    assert!(divide(&a, &nz, TensorId(3)).is_err());
    assert!(divide_relaxed(&a, &z, TensorId(3)).is_err());
    assert!(divide_relaxed(&a, &scalar(4, 0.0), TensorId(3)).is_err());
    let empty = tensor_1d(5, vec![]);
    assert!(divide_relaxed(&empty, &scalar(4, 0.0), TensorId(3)).is_ok());
}

#[test]
fn test_relaxed_add_pads_the_shorter_vector() {
    let a = tensor_1d(1, vec![1.0, 2.0, 3.0]);
    let b = tensor_1d(2, vec![10.0, 20.0, 30.0, 40.0, 50.0]);
    let sum = add_relaxed(&a, &b, TensorId(3)).unwrap();
    assert_eq!(sum.shape().dims, vec![5]);
    assert_eq!(floats(&sum), vec![11.0, 22.0, 33.0, 40.0, 50.0]);
    let sum = add_relaxed(&b, &a, TensorId(3)).unwrap();
    assert_eq!(floats(&sum), vec![11.0, 22.0, 33.0, 40.0, 50.0]);
    let diff = sub_relaxed(&a, &b, TensorId(3)).unwrap();
    assert_eq!(floats(&diff), vec![-9.0, -18.0, -27.0, -40.0, -50.0]);
    let prod = multiply_relaxed(&a, &b, TensorId(3)).unwrap();
    assert_eq!(floats(&prod), vec![10.0, 40.0, 90.0, 40.0, 50.0]);
    let quot = divide_relaxed(&b, &a, TensorId(3)).unwrap();
    assert_eq!(floats(&quot), vec![10.0, 10.0, 10.0, 40.0, 50.0]);
}

#[test]
fn test_relaxed_scalar_broadcast() {
    let s = scalar(1, 2.0);
    let v = tensor_1d(2, vec![10.0, 20.0, 30.0, 40.0]);
    let m = create_matrix(3, 2, 2, vec![1.0, 2.0, 3.0, 4.0]);
    let out = multiply_relaxed(&s, &v, TensorId(4)).unwrap();
    assert_eq!(floats(&out), vec![20.0, 40.0, 60.0, 80.0]);
    assert_eq!(out.shape().dims, vec![4]);
    let out = sub_relaxed(&m, &s, TensorId(4)).unwrap();
    assert_eq!(floats(&out), vec![-1.0, 0.0, 1.0, 2.0]);
    assert_eq!(out.shape().dims, vec![2, 2]);
    let out = add_relaxed(&s, &s, TensorId(4)).unwrap();
    assert_eq!(out.shape().dims, Vec::<usize>::new());
    assert_eq!(floats(&out), vec![4.0]);
    assert!(add_relaxed(&m, &v, TensorId(4)).is_err());
    assert!(add_relaxed(&m, &m, TensorId(4)).is_err());
}

#[test]
fn test_scalar_mul_and_reductions() {
    let v = tensor_1d(1, vec![3.0, 4.0]);
    assert_eq!(floats(&scalar_mul(&v, 2.0f32.to_bits(), TensorId(2)).unwrap()), vec![6.0, 8.0]);
    assert_eq!(f32::from_bits(l2_norm_1d(&v).unwrap()), 5.0);
    assert_eq!(f32::from_bits(dot_1d(&v, &v).unwrap()), 25.0);
    let w = tensor_1d(2, vec![0.0, 0.0]);
    assert_eq!(f32::from_bits(distance_1d(&v, &w).unwrap()), 5.0);
    let m = create_matrix(3, 1, 2, vec![3.0, 4.0]);
    assert!(l2_norm_1d(&m).is_err());
    assert!(dot_1d(&v, &m).is_err());
    assert!(dot_1d(&v, &tensor_1d(4, vec![1.0])).is_err());
    assert!(distance_1d(&m, &m).is_err());
}

#[test]
fn test_cosine_fails_on_zero_norm() {
    let v = tensor_1d(1, vec![3.0, 4.0]);
    let zero = tensor_1d(2, vec![0.0, 0.0]);
    let negative_zero = tensor_1d(3, vec![-0.0, 0.0]);
    assert!(cosine_similarity_1d(&v, &zero).is_err());
    assert!(cosine_similarity_1d(&zero, &v).is_err());
    assert!(cosine_similarity_1d(&negative_zero, &v).is_err());
    assert!(cosine_similarity_1d(&zero, &zero).is_err());
    assert!(normalize_1d(&zero, TensorId(4)).is_err());
    assert_eq!(f32::from_bits(cosine_similarity_1d(&v, &v).unwrap()), 1.0);
}

#[test]
fn test_transpose_twice_is_identity() {
    let a = create_matrix(1, 2, 3, vec![1.0, 2.0, 3.0, 4.0, 5.0, 6.0]);
    let once = transpose(&a, TensorId(2)).unwrap();
    let twice = transpose(&once, TensorId(1)).unwrap();
    assert_eq!(twice.shape().dims, a.shape().dims);
    assert_eq!(twice.data_ref(), a.data_ref());
    assert!(transpose(&tensor_1d(3, vec![1.0]), TensorId(4)).is_err());
}

#[test]
fn test_reshape_round_trip() {
    let a = create_matrix(1, 2, 3, vec![1.0, 2.0, 3.0, 4.0, 5.0, 6.0]);
    let same = reshape(&a, Shape::new(vec![2, 3]), TensorId(2)).unwrap();
    let flat = flatten(&same, TensorId(3)).unwrap();
    assert_eq!(flat.data_ref(), a.data_ref());
}

#[test]
fn test_strict_add_commutes_on_values() {
    let a = tensor_1d(1, vec![0.1, 2.5, -3.0]);
    let b = tensor_1d(2, vec![0.2, 1.0e10, 3.0]);
    let ab = add(&a, &b, TensorId(3)).unwrap();
    let ba = add(&b, &a, TensorId(3)).unwrap();
    assert_eq!(ab.data_ref(), ba.data_ref());
    assert_eq!(floats(&ab), vec![0.1f32 + 0.2f32, 2.5f32 + 1.0e10f32, 0.0]);
}

#[test]
fn test_arithmetic_matches_the_machine() {
    let xs: Vec<f32> = vec![0.1, 0.7, 1.0e-40, 3.4e38, -2.5, 1.0e20, 7.0, 0.3];
    let ys: Vec<f32> = vec![0.2, 0.1, 1.0e-41, 3.4e38, 1.5, -1.0e20, 3.0, 0.0003];
    let a = tensor_1d(1, xs.clone());
    let b = tensor_1d(2, ys.clone());
    let sum = floats(&add(&a, &b, TensorId(3)).unwrap());
    let diff = floats(&sub(&a, &b, TensorId(3)).unwrap());
    let prod = floats(&multiply(&a, &b, TensorId(3)).unwrap());
    let quot = floats(&divide(&a, &b, TensorId(3)).unwrap());
    for i in 0..xs.len() {
        assert_eq!(sum[i].to_bits(), (xs[i] + ys[i]).to_bits());
        assert_eq!(diff[i].to_bits(), (xs[i] - ys[i]).to_bits());
        assert_eq!(prod[i].to_bits(), (xs[i] * ys[i]).to_bits());
        assert_eq!(quot[i].to_bits(), (xs[i] / ys[i]).to_bits());
    }
    for x in [2.0f32, 0.5, 1.0e-40, 3.0, 1.0e30, 0.0] {
        let v = tensor_1d(4, vec![x]);
        let norm = f32::from_bits(l2_norm_1d(&v).unwrap());
        assert_eq!(norm.to_bits(), (x * x).sqrt().to_bits());
    }
}

#[test]
fn test_slice_errors() {
    let v = create_vector(1, vec![1.0, 2.0, 3.0]);
    assert!(slice(&v, 1, 0, 1, TensorId(2)).is_err());
    assert!(slice(&v, 0, 2, 2, TensorId(2)).is_err());
    assert!(slice(&v, 0, 2, 1, TensorId(2)).is_err());
    assert!(slice(&v, 0, 0, 4, TensorId(2)).is_err());
    let cube = Tensor::new(TensorId(3), Shape::new(vec![1, 1, 1]), bits(vec![1.0])).unwrap();
    assert!(slice(&cube, 0, 0, 1, TensorId(2)).is_err());
}

#[test]
fn test_slice_multi() {
    let v = create_vector(1, vec![1.0, 2.0, 3.0, 4.0]);
    let m = create_matrix(2, 2, 3, vec![1.0, 2.0, 3.0, 4.0, 5.0, 6.0]);

    let one = slice_multi(&v, &[SliceSpec::Index(2)], TensorId(9)).unwrap();
    assert_eq!(one.shape().dims, Vec::<usize>::new());
    assert_eq!(floats(&one), vec![3.0]);
    let some = slice_multi(&v, &[SliceSpec::Range(1, 3)], TensorId(9)).unwrap();
    assert_eq!(floats(&some), vec![2.0, 3.0]);
    let all = slice_multi(&v, &[SliceSpec::All], TensorId(9)).unwrap();
    assert_eq!(floats(&all), vec![1.0, 2.0, 3.0, 4.0]);
    assert_eq!(all.id(), TensorId(9));

    let cell = slice_multi(&m, &[SliceSpec::Index(1), SliceSpec::Index(2)], TensorId(9)).unwrap();
    assert_eq!(cell.shape().dims, Vec::<usize>::new());
    assert_eq!(floats(&cell), vec![6.0]);
    let row = slice_multi(&m, &[SliceSpec::Index(0), SliceSpec::All], TensorId(9)).unwrap();
    assert_eq!(row.shape().dims, vec![3]);
    assert_eq!(floats(&row), vec![1.0, 2.0, 3.0]);
    let col = slice_multi(&m, &[SliceSpec::All, SliceSpec::Index(1)], TensorId(9)).unwrap();
    assert_eq!(col.shape().dims, vec![2]);
    assert_eq!(floats(&col), vec![2.0, 5.0]);
    let rows = slice_multi(&m, &[SliceSpec::Range(1, 2), SliceSpec::All], TensorId(9)).unwrap();
    assert_eq!(rows.shape().dims, vec![1, 3]);
    assert_eq!(floats(&rows), vec![4.0, 5.0, 6.0]);
    let cols = slice_multi(&m, &[SliceSpec::All, SliceSpec::Range(1, 3)], TensorId(9)).unwrap();
    assert_eq!(cols.shape().dims, vec![2, 2]);
    assert_eq!(floats(&cols), vec![2.0, 3.0, 5.0, 6.0]);
    let sub = slice_multi(&m, &[SliceSpec::Range(0, 2), SliceSpec::Range(0, 2)], TensorId(9))
        .unwrap();
    assert_eq!(sub.shape().dims, vec![2, 2]);
    assert_eq!(floats(&sub), vec![1.0, 2.0, 4.0, 5.0]);
    let part = slice_multi(&m, &[SliceSpec::Index(1), SliceSpec::Range(0, 2)], TensorId(9))
        .unwrap();
    assert_eq!(part.shape().dims, vec![2]);
    assert_eq!(floats(&part), vec![4.0, 5.0]);
    let part = slice_multi(&m, &[SliceSpec::Range(0, 2), SliceSpec::Index(2)], TensorId(9))
        .unwrap();
    assert_eq!(part.shape().dims, vec![2]);
    assert_eq!(floats(&part), vec![3.0, 6.0]);
    let whole = slice_multi(&m, &[SliceSpec::All, SliceSpec::All], TensorId(9)).unwrap();
    assert_eq!(whole.shape().dims, vec![2, 3]);
    assert_eq!(floats(&whole), floats(&m));

    assert!(slice_multi(&m, &[SliceSpec::All], TensorId(9)).is_err());
    assert!(slice_multi(&m, &[SliceSpec::Index(2), SliceSpec::All], TensorId(9)).is_err());
    assert!(slice_multi(&m, &[SliceSpec::All, SliceSpec::Range(2, 4)], TensorId(9)).is_err());
    assert!(slice_multi(&m, &[SliceSpec::Range(1, 1), SliceSpec::All], TensorId(9)).is_err());
    assert!(slice_multi(&scalar(3, 1.0), &[], TensorId(9)).is_err());
}

#[test]
fn test_index_to_scalar_and_stack_errors() {
    let m = create_matrix(1, 2, 3, vec![1.0, 2.0, 3.0, 4.0, 5.0, 6.0]);
    let cell = index_to_scalar(&m, &[1, 0], TensorId(5)).unwrap();
    assert_eq!(cell.rank(), 0);
    assert_eq!(floats(&cell), vec![4.0]);
    assert!(index_to_scalar(&m, &[1], TensorId(5)).is_err());
    assert!(index_to_scalar(&m, &[2, 0], TensorId(5)).is_err());

    let a = tensor_1d(1, vec![1.0, 2.0]);
    let b = tensor_1d(2, vec![3.0]);
    assert!(stack(&[], 0, TensorId(3)).is_err());
    assert!(stack(&[&a, &b], 0, TensorId(3)).is_err());
    assert!(stack(&[&a, &a], 1, TensorId(3)).is_err());
    let cube = stack(&[&m, &m], 0, TensorId(3)).unwrap();
    assert_eq!(cube.shape().dims, vec![2, 2, 3]);
    assert_eq!(cube.len(), 12);
}
