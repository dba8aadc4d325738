pub mod arrays;
pub mod files;
pub mod run_builtins;
pub mod run_class;
pub mod run_expr;
pub mod variable;
