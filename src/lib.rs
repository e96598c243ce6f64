//! Discovery of Linux hwmon sensor groups and automatic pairing of PWM
//! outputs with the fans they drive.

pub mod text;
pub mod pairing;
pub mod sysfs;
pub mod pwm;
pub mod fans;
pub mod temp;
pub mod hwmon;
pub mod telemetry;
pub mod hwmon_service;
pub mod program;
pub mod terminal_utils;
pub mod fan_service;
pub mod engine;
