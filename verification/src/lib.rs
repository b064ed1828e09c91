//! A minimal concurrent request server core: a fixed-size worker pool
//! dispatches fire-and-forget jobs from a single producer to one of N
//! long-lived workers pulling from a shared queue, plus the small helpers
//! around it (logging lines, request-line parsing, response formatting).

mod http;
mod logging;
mod messages;
mod pool;

pub use http::FileRoute;
pub use http::RequestKind;
pub use http::build_page;
pub use http::classify_request;
pub use http::dec_rep_bytes;
pub use http::http_header;
pub use http::http_response;
pub use http::is_get_request;
pub use http::parse_request_line;
pub use http::relative_path;
pub use http::relative_path_spec;
pub use http::request_target;
pub use http::response_bytes;
pub use http::response_head;
pub use http::route_file;
pub use http::route_file_spec;
pub use http::url_decoded_of;
pub use http::rendered_of;
pub use logging::Logging;
pub use logging::strip_location_of;
pub use messages::dec_digit;
pub use messages::dec_rep;
pub use messages::f;
pub use messages::u64_to_string;
pub use pool::ThreadPool;
pub use pool::Worker;
pub use pool::lemma_exactly_once_accounting;
pub use pool::lemma_no_duplicate_execution;
pub use pool::lemma_teardown_drains_all;
pub use pool::lemma_teardown_progress;
pub use pool::WorkerEvent;
pub use pool::WorkerState;
pub use pool::worker_step;
pub use pool::event_enabled;
pub use pool::step_spec;
pub use pool::all_shut_down;
pub use pool::no_failures;
pub use pool::in_hand;
pub use pool::hand_of;
pub use pool::job_of;
pub use pool::state_weight;
pub use pool::workers_weight;
