//! A five-field cron expression library: a grammar parser building a typed
//! syntax tree, an evaluator matching a calendar instant against that tree,
//! and a lazy successor iterator that walks instants forward minute by minute.

pub mod ast;
pub mod calendar;
pub mod cron_evaluator;
pub mod cron_interval;
pub mod cron_interval_iterator;
pub mod cron_parser;
pub mod cron_schedule;
pub mod cron_specification;
