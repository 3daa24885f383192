pub mod demux;
pub mod frame;
pub mod h264;
pub mod h265;
pub mod nal;
pub mod obu;
pub mod worker;
