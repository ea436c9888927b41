//! Rewrites the assertions of the standard library, `assert!`, `assert_eq!`
//! and `assert_ne!`, into calls of assertion macros that say more when they
//! fail.
//!
//! The library decides on one macro invocation at a time. A walk over the
//! body of a function, which is not part of this library, hands it every
//! invocation it meets, outer before inner, and does what it is told:
//!
//! * an assertion is replaced by a call of the replacement macro, with its
//!   operands joined by `==` or `!=` and the rest of its arguments kept, and
//!   the walk does not go into it;
//! * the invocation of any other macro stays, and the walk goes on inside
//!   its arguments only where they are a single expression;
//! * an assertion whose arguments cannot be read ends the rewriting of the
//!   function.
//!
//! [`assert2ification`] holds these decisions and the options of the
//! rewriting, [`macro_expression`] tells assertions from other macros and
//! parses them, [`match_arguments`] reads the arguments of `matches!`,
//! [`assertion_macro`] writes the replacement, and [`detail`] names the
//! macros and looks after the attributes of the function. [`laws`] proves
//! what follows for the rewriting as a whole.
//!
//! Tokens are those of `proc_macro2` and keep their spans. Two modules meet
//! the outside: [`tokens`] builds and reads token streams and [`syntax`]
//! asks the parser of `syn`. What they state about the outside functions is
//! believed, not proved; everything else is verified against it.

pub mod assert2ification;
pub mod assertion;
pub mod assertion_macro;
pub mod detail;
pub mod invocation;
pub mod laws;
pub mod macro_expression;
pub mod match_arguments;
pub mod path;
pub mod syntax;
pub mod tokens;
