//! Media production pipeline core.
//!
//! - [`pipeline_types`], [`json`], [`text`], [`paths`], [`settings`], [`clock`]:
//!   the values that everything else speaks of.
//! - [`job_queue`], [`artifact_store`], [`gateway`]: where jobs wait, where they
//!   are kept, and what the API does with them.
//! - [`registry`], [`stage_request`], [`dispatch`], [`orchestrator`],
//!   [`poll_loop`]: how jobs are driven through the stages.
//! - [`provider_router`], [`rlm_client`], [`planner`], [`research`], [`tts`],
//!   [`asr`], [`captions`], [`render`], [`qa`], [`ffmpeg`], [`ffprobe`],
//!   [`validator_core`]: what the stages do.
//! - [`mock_services`], [`mock_render`], [`demo`], [`demo_runner`],
//!   [`operator_cli`]: mock stages, the demo, and what operators are shown.

pub mod artifact_store;
pub mod asr;
pub mod captions;
pub mod clock;
pub mod demo;
pub mod demo_runner;
pub mod dispatch;
pub mod ffmpeg;
pub mod ffprobe;
pub mod gateway;
pub mod job_queue;
pub mod json;
pub mod mock_render;
pub mod mock_services;
pub mod operator_cli;
pub mod orchestrator;
pub mod paths;
pub mod pipeline_types;
pub mod planner;
pub mod poll_loop;
pub mod provider_router;
pub mod qa;
pub mod registry;
pub mod render;
pub mod research;
pub mod rlm_client;
pub mod settings;
pub mod stage_request;
pub mod text;
pub mod tts;
pub mod validator_core;
