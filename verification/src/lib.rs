mod config_path;
mod dates;
mod email;
mod error_builder;
mod guess;
mod list;
mod random_pick;
mod trinity;
mod vending;
pub mod post;
pub mod storage;
pub mod user;

pub use config_path::ConfArg;
pub use config_path::choose_config_path;
pub use config_path::chosen_path;
pub use dates::Date;
pub use dates::User;
pub use dates::date_after;
pub use dates::is_leap_year;
pub use dates::month_day_before;
pub use dates::now_date;
pub use dates::spec_age;
pub use dates::spec_days_in_month;
pub use dates::valid_ymd;
pub use email::EmailString;
pub use email::at_split_ok;
pub use email::email_ok;
pub use email::prohibited_byte;
pub use error_builder::Error;
pub use guess::GameOutcome;
pub use guess::outcome;
pub use guess::spec_outcome;
pub use list::List;
pub use list::ListError;
pub use list::Node;
pub use list::NodeRef;
pub use list::bumped;
pub use list::lemma_insert_then_remove_round_trip;
pub use list::lemma_repeated_bumps;
pub use list::lemma_traverse_twice;
pub use random_pick::Fact;
pub use random_pick::Random;
pub use trinity::Solver;
pub use trinity::Trinity;
pub use trinity::spec_rotate;
pub use trinity::spec_solved;
pub use vending::Coin;
pub use vending::CoinCounts;
pub use vending::Money;
pub use vending::Product;
pub use vending::ProductKindAndQuantity;
pub use vending::VMSweets;
pub use vending::VendingError;
pub use vending::VendingMachine;
pub use vending::can_give_change;
pub use vending::change_outcome;
pub use vending::has_kind;
pub use vending::in_stock;
pub use vending::kind_index;
pub use vending::load_all;
pub use vending::load_coin;
pub use vending::product_eq;
pub use vending::total_quantity;
pub use vending::vm_ok;
