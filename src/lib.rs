//! An arbitration engine for Othello games: the rules of the board, the wire
//! forms of boards and messages, the line protocol spoken with agent
//! processes, the registries of rooms and spectators, and the state machine
//! of one game session.
pub mod failure;
pub mod othello;
pub mod protocol;
pub mod registry;
pub mod runner;
pub mod session;
