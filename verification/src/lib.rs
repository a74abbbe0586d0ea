pub mod airdemo;
pub mod airbus;
pub mod aircomp;
pub mod airfiles;
pub mod airkit_ui;
pub mod airproto;
pub mod airsettings;
pub mod airsetup;
pub mod airshell;
pub mod airterm;
pub mod text;
