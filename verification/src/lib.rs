//! A streaming-client engine and crawl orchestration for cryptocurrency
//! market data: a connection state machine with subscription replay, a
//! rate-limited outbound command path, exchange adapters that translate
//! uniform subscription requests into wire commands, and REST snapshot
//! helpers.

mod adapter;
mod bitget;
mod crawl;
mod engine;
mod errors;
mod extern_calls;
mod messages;
mod rate;
mod rest;
mod strutil;
mod topics;

pub use adapter::Classification;
pub use adapter::ClassificationV;
pub use adapter::ExchangeAdapter;
pub use adapter::string_views;
pub use adapter::topic_views;

pub use bitget::BitgetAdapter;
pub use bitget::BitgetSwapWSClient;
pub use bitget::UPLINK_INTERVAL_MS;
pub use bitget::UPLINK_LIMIT;
pub use bitget::WEBSOCKET_URL;
pub use bitget::bitget_classification;
pub use bitget::bitget_command;
pub use bitget::build_channel_topics;
pub use bitget::candle_channel_name;
pub use bitget::candle_supported;
pub use bitget::candle_topics;
pub use bitget::channel_topics;
pub use bitget::login_command_view;
pub use bitget::pair_views;
pub use bitget::ws_sign_payload;
pub use bitget::ws_signature_of;

pub use crawl::EXCHANGE_NAME;
pub use crawl::check_args;
pub use crawl::collect_snapshots;
pub use crawl::count_some;
pub use crawl::invalid_symbols_of;
pub use crawl::kept_snapshots;
pub use crawl::lemma_invalid_symbols_empty;
pub use crawl::lemma_snapshot_counts;
pub use crawl::outcome_views;
pub use crawl::resolve_symbols;

pub use engine::ConnectionState;
pub use engine::EngineModel;
pub use engine::ReconnectEvent;
pub use engine::StreamEngine;
pub use engine::apply_reconnect_events;
pub use engine::departing_views;
pub use engine::fresh_views;
pub use engine::lemma_engine_rate_bound;
pub use engine::lemma_reconnections_preserve_topics;
pub use engine::lemma_replay_exact;
pub use engine::lemma_subscribe_then_unsubscribe_empty;
pub use engine::spec_connect_result;
pub use engine::spec_reconnect_result;
pub use engine::spec_transport_error;
pub use engine::subscribe_topics;
pub use engine::unsubscribe_topics;

pub use errors::AuthError;
pub use errors::EngineError;
pub use errors::SubscribeError;
pub use errors::ValidationError;

pub use extern_calls::base64_encode;
pub use extern_calls::base64_of;
pub use extern_calls::hmac_sha256;
pub use extern_calls::hmac_sha256_of;
pub use extern_calls::now_unix_secs;

pub use messages::MarketType;
pub use messages::Message;
pub use messages::MessageKind;

pub use rate::RateBudget;
pub use rate::count_in_window;
pub use rate::first_at_or_after;
pub use rate::lemma_rate_window_bound;
pub use rate::sorted;
pub use rate::spaced;

pub use rest::BASE_URL;
pub use rest::BitgetSwapRestClient;
pub use rest::PreparedRequest;
pub use rest::build_query_url;
pub use rest::pair_seq_views;
pub use rest::query_string;
pub use rest::rest_sign_payload;
pub use rest::rest_signature_of;

pub use strutil::chars_vec;
pub use strutil::dec_of;
pub use strutil::extract_after;
pub use strutil::extract_between;
pub use strutil::find_from;
pub use strutil::first_match_from;
pub use strutil::u64_to_dec;

pub use topics::Topic;
pub use topics::TopicSet;
pub use topics::TopicV;
