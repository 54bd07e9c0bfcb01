mod aggregator;
mod aggregator_laws;
mod codec;
mod config;
mod packet;
mod pixel_position_iterator;
mod profile;
mod scan;
mod valid_window;

pub use packet::{
    spec_zero_column, spec_zero_header, spec_zero_packet, ChannelsHeader, Column, ColumnV, Header,
    OusterPacket, OusterPacketHeader, OusterPacketHeaderSafety, PacketHeader, PacketV, RangeData,
    SizeMismatchError,
};
pub use pixel_position_iterator::{
    lemma_pixel_positions_distinct, spec_pixel_position, PixelPositionIterator,
};
pub use profile::{
    decode_range15, spec_channel_kind, spec_decode_range15, spec_decode_range20,
    spec_zero_channel, Channel, DualChannel, DualLowChannel, LowDataChannel, PointChannelInfo,
    PointInfo, PointInfos, PrimaryPointInfo, Profile, ProfileKind, SingleChannel,
};
pub use aggregator::{
    lemma_zero_packet_wf, spec_bit, spec_close_stats, spec_fresh_entry, spec_histogram,
    spec_slot_index, spec_step, Aggregator, AggregatorModel, AggregatorStatistics, CompleteData,
    EntryModel, COMMIT_DELAY,
};
pub use aggregator_laws::{
    lemma_aggregator_completeness, lemma_bit_or_set, lemma_bit_zero, lemma_close_stats_all_set,
    lemma_reordering_tolerance, lemma_run_concat, lemma_run_snoc, spec_run, spec_slot_covered,
};
pub use codec::{
    channel_size, column_size, packet_size, spec_channel_size, spec_column_size, spec_packet_size,
    lemma_packet_bytes_len, lemma_packet_round_trip, lemma_tabulated_packet_sizes,
    spec_packet_bytes, spec_packet_of_bytes, CHANNELS_HEADER_BYTES, DUAL_CHANNEL_BYTES,
    DUAL_LOW_CHANNEL_BYTES, LOW_DATA_CHANNEL_BYTES, PACKET_HEADER_BYTES, PACKET_RESERVED_BYTES,
    RANGE_DATA_BYTES, SINGLE_CHANNEL_BYTES,
};
pub use config::{
    AzimuthWindow, ConfigParams, InvalidConfig, LidarDataFormat, LidarMode, LidarProfile,
    SignalMultiplier, ValidLidarDataFormat, ValidateConfigParamsError,
};
pub use scan::{lemma_scan_position_count, spec_scan_position, ScanPositionIterator};
pub use valid_window::{
    lemma_wrapping_window_covers_frame, spec_complete_cols, spec_required_measurements,
    spec_shift_max, spec_shift_min, ValidWindow,
};
