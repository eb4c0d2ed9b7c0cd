//! Resolution and simplification engine of the Waveguide compiler front end.
//!
//! A program is an arena of scopes and variables addressed by integer ids.
//! The engine instantiates generic scopes, unifies data types by the biggest
//! common type rule, and folds expressions whose inputs are known at compile
//! time, leaving residual run-time code for the rest.
//!
//! The data: `position`, `ids`, `data_type`, `known_data`, `operator`,
//! `expression`, `func_call`, `variable`, `scope`, `program`, `problem`,
//! with `wellformed`, `values`, `widen` and `equivalent` beside them.
//!
//! The simplifier: `fold` computes operations on known values, `binary`,
//! `access` and `assign` say what one expression of each kind becomes once
//! its parts are simplified, `table` and `copier` instantiate scopes,
//! `binding` and `instantiate` simplify calls, and `semantics` says what
//! the simplification of a whole expression leaves. `simplifier` and
//! `calls` walk expressions and are proved to follow it. `run_time_call`
//! proves from the semantics what a call with an unknown argument leaves.
//!
//! The resolver of calls in three-address form: `template` infers type
//! parameters, `emit` adds a call with the casts that it needs,
//! `resolution` says what the resolution of a list of calls leaves, and
//! `resolver` does it. `builtins` declares the builtin functions, and
//! `driver` resolves a scope from its start to its end.
//!
//! For the front end: `literal` reads integer literals, `precedence`
//! knows the operators, and `climb` groups a flat list of operands and
//! operators.
//!
//! After resolution: `trivial` is the flat form of a program, and
//! `specialized` the form for one machine and the way to it from the flat
//! form.

pub mod access;
pub mod assign;
pub mod binary;
pub mod binding;
pub mod builtins;
pub mod calls;
pub mod climb;
pub mod copier;
pub mod data_type;
pub mod driver;
pub mod emit;
pub mod equivalent;
pub mod expression;
pub mod fold;
pub mod func_call;
pub mod ids;
pub mod instantiate;
pub mod known_data;
pub mod literal;
pub mod operator;
pub mod position;
pub mod precedence;
pub mod problem;
pub mod program;
pub mod resolution;
pub mod resolver;
pub mod run_time_call;
pub mod scope;
pub mod semantics;
pub mod simplified;
pub mod simplifier;
pub mod specialized;
pub mod table;
pub mod template;
pub mod trivial;
pub mod values;
pub mod variable;
pub mod wellformed;
pub mod widen;
