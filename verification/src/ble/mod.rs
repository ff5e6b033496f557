//! The Bluetooth frame formats: packets, their encodings and their decodings.
pub mod bytes;
pub mod codec;
pub mod frame;
pub mod layout;
pub mod packets;
pub mod params;
pub mod scene;
pub mod segment;

pub use bytes::{
    decode_notification, encode_for_generic_light, query_device_brightness, query_device_color,
    query_device_power, query_segment_colors, Base64HexBytes, InvalidBase64,
};
pub use codec::{
    EncodeError, GoveeBlePacket, HexBytes, PacketBody, PacketCodec, PacketKind, PacketManager,
    GENERIC_LIGHT,
};
pub use frame::{calculate_checksum, finish};
pub use packets::{
    HumidifierAutoMode, NotifyDeviceBrightness, NotifyDeviceColor, NotifyDevicePower,
    NotifyHumidifierMode, NotifyHumidifierNightlightParams, SetDeviceBrightness, SetDeviceColorRgb,
    SetDeviceColorTemperature, SetDevicePower, SetHumidifierMode, SetHumidifierNightlightParams,
};
pub use params::{DecodePacketParam, InvalidKelvin, Kelvin, OptionalKelvin, TargetHumidity};
pub use scene::{InvalidSceneParam, SetSceneCode};
pub use segment::{
    NotifySegmentColors, NotifySegmentMode, SegmentColor, SegmentOutOfRange, SetSegmentBrightness,
    SetSegmentColorRgb, SEGMENTS_PER_PAGE, SEGMENT_MASK_BYTES,
};
