pub mod alarm;
pub mod datetime;
pub mod parse;
pub mod player;

pub use alarm::{AlarmDuration, calculate_time, is_valid_date};
pub use datetime::{Date, DateTime};
pub use parse::{ParseError, format_date_time, parse_date_time};
pub use player::{Countdown, PlayerAction, player_step};
