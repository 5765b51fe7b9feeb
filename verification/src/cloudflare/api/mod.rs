pub mod certificates;
