//! Small verified building blocks around ownership: values that announce
//! their own end, a scope that drops what its binding held, a selector that
//! stands for its selected element, and splitting a slice in two by a test.

pub mod application;
pub mod partition;
pub mod power_of_two;
pub mod scope;
pub mod selector;
