//! A heightfield cellular automaton: a grid of columns, each holding a static
//! terrain base and a stack of moveable material layers, advanced one tick at
//! a time by local mass-redistribution rules.
pub mod cells;
pub mod sim;
pub mod world;
