//! Simulation core of a top-down lock-on shooter.
//!
//! The crate steps a world of one player, descending enemies, straight
//! lasers and homing lasers one frame at a time, and keeps the bookkeeping
//! of the lock-on system consistent while enemies come and go.
//!
//! Every quantity is an integer. Lengths are thousandths of a pixel, times
//! are microseconds, speeds are thousandths of a pixel per second, and
//! ratios are millionths.
//!
//! The host owns the window. Once per frame it hands [`game::Game::update`]
//! the pointer, the button, the clock and the length of the frame, and for
//! each enemy the current value of its oscillation in thousandths: the sine
//! or cosine of the angle that [`entities::Enemy::phase`] gives. It then
//! draws what the public fields of the game hold.
//!
//! Enemies are referred to by their position in the enemy collection, from
//! the lock list and from the homing lasers. [`game::GameView::wf`] states
//! what must hold of these references; every operation of the game keeps
//! it. [`removal`] proves that a batch of enemies can leave without a
//! reference going astray, and [`references`] proves the same of a whole
//! frame.

pub mod constants;
pub mod geometry;
pub mod seqs;
pub mod indices;
pub mod entities;
pub mod input;
pub mod difficulty;
pub mod scoring;
pub mod label;
pub mod motion;
pub mod lasers;
pub mod lock_on;
pub mod game;
pub mod removal;
pub mod collision;
pub mod spawn;
pub mod targeting;
pub mod frame;
pub mod references;
