[package]
name = "cassiopeia"
version = "0.1.0"
edition = "2021"
publish = false

[dependencies]
convert_case = "=0.12.0"
quick-xml = "=0.42.0"
encoding_rs = "=0.8.44"
encoding_rs_io = "=0.1.8"
serde_json = "=1.0.154"
simd-json = "=0.19.0"
geojson = "=1.0.0"
geo = "=0.33.1"
geo-types = "=0.7.20"
kml = "=0.15.0"
csv = "=1.4.0"
shapefile = { version = "=0.9.0", features = ["geo-types"] }
dbase = "=0.8.0"
zip = { version = "=9.2.2", default-features = false, features = ["deflate"] }
temp-dir = "=0.2.0"
grib = { version = "=0.20.2", default-features = false, features = ["time-calculation", "png-unpack-with-png-crate"] }
thiserror = "=2.0.21"
