use std::sync::Arc;

use tensor_compute::ComputeError;
use tensor_compute::Cpu;
use tensor_compute::Device;

#[test]
fn test_cpu_properties() {
    let cpu = Cpu::new(4, 8, 3_200_000);
    assert_eq!(cpu.cores(), 4);
    assert_eq!(cpu.threads(), 8);
    assert_eq!(cpu.frequency(), 3_200_000);
}

#[test]
fn test_cpu_execute_returns_result() {
    let cpu = Cpu::new(2, 4, 2_400_000);
    let result = cpu.execute(|| Ok(Arc::new(42i64)));
    assert_eq!(*result.unwrap(), 42);
}

#[test]
fn test_cpu_execute_propagates_failure() {
    let cpu = Cpu::new(2, 4, 2_400_000);
    let result = cpu.execute(|| -> Result<Arc<i64>, ComputeError> {
        Err(ComputeError::GeneralError { message: "unit of work failed".to_string() })
    });
    if let Err(ComputeError::GeneralError { message }) = result {
        assert_eq!(message, "unit of work failed");
    } else {
        panic!("Expected the failure to be propagated unchanged");
    }
}

#[test]
fn test_cpu_execute_shared_result() {
    let cpu = Cpu::new(1, 1, 1_000_000);
    let result = cpu.execute(|| Ok(Arc::new(7i64))).unwrap();
    let second = Arc::clone(&result);
    assert_eq!(*result, 7);
    assert_eq!(*second, 7);
}
