//! Verified decision core of the game agent client: what a worker sells,
//! drops, buys and eats, which monster it fights, how its loop and its
//! dungeon run advance, how a walk is paced and when it ends, what each
//! action of the agent's reply decides and says, when the next prompt goes
//! out, how an innkeeper's day of guests, plates and sick-room beds is
//! shared out through the claim board, how a rule file's rules are ordered,
//! checked, read against the world and turned into actions, and how an
//! app-managed label block, the memory file and the operator's
//! announcements are read.

use vstd::prelude::*;

pub mod timers;
pub mod text;
pub mod labels;
pub mod outcome;
pub mod items;
pub mod worker;
pub mod errand;
pub mod fighter;
pub mod dungeoneer;
pub mod run_dir;
pub mod execute;
pub mod walk;
pub mod dungeon;
pub mod claims;
pub mod descent;
pub mod chat;
pub mod turn;
pub mod pacing;
pub mod floor_move;
pub mod dispatch;
pub mod worker_loop;
pub mod memory;
pub mod schedule;
pub mod hosting;
pub mod rules;
pub mod notices;
pub mod json;
pub mod rule_eval;
