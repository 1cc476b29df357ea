pub mod gpu;
pub mod gpu_list;
pub mod nvidia_gpu;
