//! A chessboard with a simplified move-legality engine.
//!
//! The board is a plain 8x8 grid of cells. A move is legal when the piece on
//! its source square may travel to its destination by the shape rule of its
//! kind and the occupancy of the squares involved. Check, castling, en
//! passant, promotion and turn order are deliberately not modelled.
//!
//! - [`board`]: colours, pieces, cells, the grid and its coordinates.
//! - [`rays`]: the walk along one direction that sliding pieces share.
//! - [`pieces`]: the legality predicate of each kind of piece.
//! - [`engine`]: validating a move and applying it to the board.
//! - [`sampler`]: drawing a random legal move.
//! - [`text`]: reading a board from text and showing it as text.
//!
//! Every function states what it computes over a mathematical model: a board
//! is viewed as the map from its squares to their cells, a ray as the sequence
//! of squares it reaches, a rendering as a sequence of characters. Besides the
//! functions the modules hold the laws that relate them, as proof functions.

pub mod board;
pub mod rays;
pub mod pieces;
pub mod engine;
pub mod sampler;
pub mod text;
