mod headers;
mod logger;
mod method;
mod pool;
mod request;
mod response;
mod router;
mod text;

pub use headers::{map_of, Headers};
pub use logger::{level_name, LogLevel};
pub use method::{method_from_name, method_name, HttpMethod};
pub use pool::{
    accounted, close_spec, fresh, lemma_closed_accepts_nothing, lemma_each_job_once,
    lemma_shutdown_drains, nexts, run_ops, step_spec, submit_spec, JobQueue, PoolCreationError,
    QueueOp, QueueView, Step,
};
pub use request::{parse_spec, HttpRequest, ParseError, RequestView};
pub use response::{serialize_response, HttpResponse, HttpStatusCode, HttpVersion, Parts};
pub use router::{
    answer_spec, create_response, get_path_response, handle_input, input_spec, lemma_echo,
    lemma_malformed_not_acceptable, lemma_patch_not_implemented, lemma_root_is_index,
    lemma_unknown_method_not_acceptable, method_token, parse_path, parse_request, patch_name,
    route, route_spec, Route, RouteView,
};
