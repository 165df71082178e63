use tensor_compute::Tensor;
use tensor_compute::TensorComputation;
use tensor_compute::TensorComputationError;

#[test]
fn test_tensor_creation() {
    let tensor = Tensor::new(&[2, 2], vec![1i64, 2, 3, 4]).unwrap();
    assert_eq!(tensor.shape(), &[2, 2]);
    assert_eq!(tensor.get(&[0, 0]), Some(&1));
    assert_eq!(tensor.get(&[1, 1]), Some(&4));
}

#[test]
fn test_tensor_addition() {
    let tensor1 = Tensor::new(&[2, 2], vec![1i64, 2, 3, 4]).unwrap();
    let tensor2 = Tensor::new(&[2, 2], vec![5i64, 6, 7, 8]).unwrap();

    let result = tensor1.add(&tensor2).unwrap();
    assert_eq!(result.shape(), &[2, 2]);
    assert_eq!(result.get(&[0, 0]), Some(&6));
    assert_eq!(result.get(&[1, 1]), Some(&12));
}

#[test]
fn test_tensor_multiplication() {
    let tensor1 = Tensor::new(&[2, 2], vec![1i64, 2, 3, 4]).unwrap();
    let tensor2 = Tensor::new(&[2, 2], vec![5i64, 6, 7, 8]).unwrap();

    let result = tensor1.multiply(&tensor2).unwrap();
    assert_eq!(result.shape(), &[2, 2]);
    assert_eq!(result.get(&[0, 0]), Some(&5));
    assert_eq!(result.get(&[1, 1]), Some(&32));
}

#[test]
fn test_tensor_transpose() {
    let tensor = Tensor::new(&[2, 3], vec![1i64, 2, 3, 4, 5, 6]).unwrap();

    let result = tensor.transpose().unwrap();
    assert_eq!(result.shape(), &[3, 2]);
    assert_eq!(result.get(&[0, 0]), Some(&1));
    assert_eq!(result.get(&[1, 0]), Some(&2));
    assert_eq!(result.get(&[0, 1]), Some(&4));
}

#[test]
fn test_shape_mismatch_error() {
    let tensor1 = Tensor::new(&[2, 2], vec![1i64, 2, 3, 4]).unwrap();
    let tensor2 = Tensor::new(&[3, 2], vec![5i64, 6, 7, 8, 9, 10]).unwrap();

    let result = tensor1.add(&tensor2);
    assert!(result.is_err());

    if let Err(TensorComputationError::ShapeMismatch { expected, found }) = result {
        assert_eq!(expected, vec![2, 2]);
        assert_eq!(found, vec![3, 2]);
    } else {
        panic!("Expected a ShapeMismatch error");
    }
}

#[test]
fn test_invalid_shape_error() {
    let result = Tensor::new(&[2, 2], vec![1i64, 2, 3]);
    assert!(result.is_err());

    if let Err(TensorComputationError::ShapeMismatch { expected, found }) = result {
        assert_eq!(expected, vec![4]);
        assert_eq!(found, vec![3]);
    } else {
        panic!("Expected a ShapeMismatch error");
    }
}

#[test]
fn test_capability_interface() {
    let tensor1 = Tensor::new(&[2, 2], vec![1i64, 2, 3, 4]).unwrap();
    let tensor2 = Tensor::new(&[2, 2], vec![5i64, 6, 7, 8]).unwrap();

    let sum = TensorComputation::add(&tensor1, &tensor2).unwrap();
    assert_eq!(sum.get(&[1, 1]), Some(&12));
    let product = TensorComputation::multiply(&tensor1, &tensor2).unwrap();
    assert_eq!(product.get(&[0, 0]), Some(&5));
    let flipped = TensorComputation::transpose(&tensor1).unwrap();
    assert_eq!(flipped.get(&[1, 0]), Some(&2));
}

#[test]
fn test_addition_all_positions() {
    let tensor1 = Tensor::new(&[2, 2], vec![1i64, 2, 3, 4]).unwrap();
    let tensor2 = Tensor::new(&[2, 2], vec![5i64, 6, 7, 8]).unwrap();
    let result = tensor1.add(&tensor2).unwrap();
    assert_eq!(result.get(&[0, 0]), Some(&6));
    assert_eq!(result.get(&[0, 1]), Some(&8));
    assert_eq!(result.get(&[1, 0]), Some(&10));
    assert_eq!(result.get(&[1, 1]), Some(&12));
}

#[test]
fn test_multiplication_all_positions() {
    let tensor1 = Tensor::new(&[2, 2], vec![1i64, 2, 3, 4]).unwrap();
    let tensor2 = Tensor::new(&[2, 2], vec![5i64, 6, 7, 8]).unwrap();
    let result = tensor1.multiply(&tensor2).unwrap();
    assert_eq!(result.get(&[0, 0]), Some(&5));
    assert_eq!(result.get(&[0, 1]), Some(&12));
    assert_eq!(result.get(&[1, 0]), Some(&21));
    assert_eq!(result.get(&[1, 1]), Some(&32));
}

#[test]
fn test_multiplication_shape_mismatch() {
    let tensor1 = Tensor::new(&[2, 2], vec![1i64, 2, 3, 4]).unwrap();
    let tensor2 = Tensor::new(&[4], vec![5i64, 6, 7, 8]).unwrap();
    let result = tensor1.multiply(&tensor2);
    if let Err(TensorComputationError::ShapeMismatch { expected, found }) = result {
        assert_eq!(expected, vec![2, 2]);
        assert_eq!(found, vec![4]);
    } else {
        panic!("Expected a ShapeMismatch error");
    }
}

#[test]
fn test_addition_overflow() {
    let tensor1 = Tensor::new(&[2], vec![i64::MAX, 1]).unwrap();
    let tensor2 = Tensor::new(&[2], vec![1i64, 1]).unwrap();
    let result = tensor1.add(&tensor2);
    assert!(matches!(
        result,
        Err(TensorComputationError::ArithmeticError { .. })
    ));
}

#[test]
fn test_multiplication_overflow() {
    let tensor1 = Tensor::new(&[2], vec![i64::MAX, 2]).unwrap();
    let tensor2 = Tensor::new(&[2], vec![2i64, 2]).unwrap();
    let result = tensor1.multiply(&tensor2);
    assert!(matches!(
        result,
        Err(TensorComputationError::ArithmeticError { .. })
    ));
}

#[test]
fn test_transpose_involution() {
    let tensor = Tensor::new(&[2, 3], vec![1i64, 2, 3, 4, 5, 6]).unwrap();
    let back = tensor.transpose().unwrap().transpose().unwrap();
    assert_eq!(back.shape(), &[2, 3]);
    for r in 0..2 {
        for c in 0..3 {
            assert_eq!(back.get(&[r, c]), tensor.get(&[r, c]));
        }
    }
}

#[test]
fn test_transpose_rank_one() {
    let tensor = Tensor::new(&[3], vec![7i64, 8, 9]).unwrap();
    let result = tensor.transpose().unwrap();
    assert_eq!(result.shape(), &[3]);
    assert_eq!(result.get(&[0]), Some(&7));
    assert_eq!(result.get(&[1]), Some(&8));
    assert_eq!(result.get(&[2]), Some(&9));
}

#[test]
fn test_transpose_rank_three() {
    let tensor = Tensor::new(&[2, 2, 2], vec![1i64, 2, 3, 4, 5, 6, 7, 8]).unwrap();
    let result = tensor.transpose().unwrap();
    assert_eq!(result.shape(), &[2, 2, 2]);
    for i in 0..2 {
        for j in 0..2 {
            for k in 0..2 {
                assert_eq!(result.get(&[i, j, k]), tensor.get(&[k, j, i]));
            }
        }
    }
    assert_eq!(result.get(&[0, 0, 1]), Some(&5));
    assert_eq!(result.get(&[1, 0, 0]), Some(&2));
}

#[test]
fn test_transpose_rank_three_asymmetric() {
    let tensor = Tensor::new(&[1, 2, 3], vec![1i64, 2, 3, 4, 5, 6]).unwrap();
    let result = tensor.transpose().unwrap();
    assert_eq!(result.shape(), &[3, 2, 1]);
    assert_eq!(result.get(&[0, 1, 0]), Some(&4));
    assert_eq!(result.get(&[2, 1, 0]), Some(&6));
    assert_eq!(result.get(&[1, 0, 0]), Some(&2));
}

#[test]
fn test_rank_zero_tensor() {
    let tensor = Tensor::new(&[], vec![42i64]).unwrap();
    assert_eq!(tensor.shape(), &[] as &[usize]);
    assert_eq!(tensor.get(&[]), Some(&42));
    let result = tensor.transpose().unwrap();
    assert_eq!(result.get(&[]), Some(&42));
}

#[test]
fn test_zero_axis_tensor() {
    let tensor = Tensor::new(&[2, 0], vec![] as Vec<i64>).unwrap();
    assert_eq!(tensor.shape(), &[2, 0]);
    assert_eq!(tensor.get(&[0, 0]), None);
    let result = tensor.transpose().unwrap();
    assert_eq!(result.shape(), &[0, 2]);
}

#[test]
fn test_get_out_of_range() {
    let tensor = Tensor::new(&[2, 2], vec![1i64, 2, 3, 4]).unwrap();
    assert_eq!(tensor.get(&[2, 0]), None);
    assert_eq!(tensor.get(&[0, 2]), None);
    assert_eq!(tensor.get(&[0]), None);
    assert_eq!(tensor.get(&[0, 0, 0]), None);
}
