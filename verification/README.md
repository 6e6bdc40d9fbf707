# cassiopeia

Turning source documents (CSV, JSON, XML, KML, GeoJSON, ESRI shapefiles, GRIB) into records
ready for NGSI-LD, and every `GeoProperty` value into one of the six geometry types NGSI-LD
admits.

The library under `src/` is verified with Verus: each public function states in its contract
what it returns, and the laws the library keeps are proved as public proof functions.

- `geometry/` — the six geometry types, the conversion lattice between them (lossless
  reconciliation, the named conversions a mapping may declare, normalisation of winding, ring
  closure and altitude, the structural check of RFC 7946).
  The structural check also refuses a linear ring whose positions do not span a surface (fewer
  than three of them differ), such as the bounding box of a lone position:
  `GeometryError::DegenerateRing`.
- `ingest/` — the format rules: the lone-array convention of JSON and its `GeoJSON` check, the
  transcoding and reading of an XML document, the XML fold and its record split, CSV value inference, KML
  placemarks, shapefile layers and attributes, GeoJSON features.
- `grib/` — the canonical parameter and level vocabularies of GRIB, and the pivot of
  per-parameter fields into per-location records.
- `record.rs`, `lists.rs`, `text.rs`, `ieee.rs` — the JSON model of a record, batching, text
  building, and the meaning of the IEEE-754 bit patterns coordinates are carried by.

Coordinates and measured values are carried as the bits of their `f64`; the library compares,
orders and deduplicates them without floating-point arithmetic.

`app/` is the unverified edge: reading files with the format crates, the floating-point
measurements the lattice asks for (geodesic areas and lengths, planar centroids, hulls and
envelopes), and ingestors that send record batches on a channel.
