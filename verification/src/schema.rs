//! The databases: where the catalogue is, and what is in it.

use vstd::prelude::*;

verus! {

use crate::catalogue_model::tables_text;

/// Creates the tables of the catalogue and of the queue, where they are missing.
pub const SYNC_DB_SCHEMA: &'static str = "
CREATE TABLE IF NOT EXISTS `available_markets` (
  `rowid` integer PRIMARY KEY NOT NULL,
  `available_markets` text NOT NULL
);

CREATE TABLE IF NOT EXISTS `artists` (
  `rowid` integer PRIMARY KEY NOT NULL,
  `id` text NOT NULL,
  `fetched_at` integer NOT NULL,
  `name` text NOT NULL,
  `followers_total` integer NOT NULL,
  `popularity` integer NOT NULL
);

CREATE TABLE IF NOT EXISTS `albums` (
  `rowid` integer PRIMARY KEY NOT NULL,
  `id` text NOT NULL,
  `fetched_at` integer NOT NULL,
  `name` text NOT NULL,
  `album_type` text NOT NULL,
  `available_markets_rowid` integer NOT NULL,
  `external_id_upc` text,
  `copyright_c` text,
  `copyright_p` text,
  `label` text NOT NULL,
  `popularity` integer NOT NULL,
  `release_date` text NOT NULL,
  `release_date_precision` text NOT NULL,
  `total_tracks` integer NOT NULL,
  `external_id_ean` text,
  FOREIGN KEY (`available_markets_rowid`) REFERENCES `available_markets`(`rowid`)
);

CREATE TABLE IF NOT EXISTS `tracks` (
  `rowid` integer PRIMARY KEY NOT NULL,
  `id` text NOT NULL,
  `fetched_at` integer NOT NULL,
  `name` text NOT NULL,
  `preview_url` text,
  `album_rowid` integer NOT NULL,
  `track_number` integer NOT NULL,
  `external_id_isrc` text,
  `popularity` integer NOT NULL,
  `available_markets_rowid` integer NOT NULL,
  `disc_number` integer NOT NULL,
  `duration_ms` integer NOT NULL,
  `explicit` integer NOT NULL,
  FOREIGN KEY (`available_markets_rowid`) REFERENCES `available_markets`(`rowid`)
);

CREATE TABLE IF NOT EXISTS `track_artists` (
  `track_rowid` integer NOT NULL,
  `artist_rowid` integer NOT NULL,
  FOREIGN KEY (`track_rowid`) REFERENCES `tracks`(`rowid`),
  FOREIGN KEY (`artist_rowid`) REFERENCES `artists`(`rowid`)
);

CREATE TABLE IF NOT EXISTS `album_images` (
  `album_rowid` integer NOT NULL,
  `width` integer NOT NULL,
  `height` integer NOT NULL,
  `url` text NOT NULL,
  FOREIGN KEY (`album_rowid`) REFERENCES `albums`(`rowid`)
);

CREATE TABLE IF NOT EXISTS `missing_tracks_queue` (
    `rowid` integer PRIMARY KEY NOT NULL,
    `track_id` text NOT NULL,
    `enqueued_at` integer NOT NULL,
    `status` text NOT NULL,
    `attempts` integer NOT NULL DEFAULT 0,
    `last_attempt_at` integer
);

-- Indices for performance
CREATE INDEX IF NOT EXISTS `tracks_id_unique` ON `tracks` (`id`);
CREATE INDEX IF NOT EXISTS `tracks_isrc` ON `tracks` (`external_id_isrc`);
CREATE INDEX IF NOT EXISTS `track_artists_track_id` ON `track_artists` (`track_rowid`);
CREATE INDEX IF NOT EXISTS `album_images_album_id` ON `album_images` (`album_rowid`);
CREATE UNIQUE INDEX IF NOT EXISTS `missing_tracks_queue_track_id_unique` ON `missing_tracks_queue` (`track_id`);
CREATE INDEX IF NOT EXISTS `missing_tracks_queue_status_rowid` ON `missing_tracks_queue` (`status`, `rowid`);
";

/// Where the catalogue is unless it is configured.
pub const DEFAULT_SYNC_DB_URL: &'static str = "sqlite://sync.db";

/// Where the catalogue is.
pub fn sync_db_url(configured: Option<String>) -> (url: String)
    ensures
        url@ == (match configured {
            Some(configured) => configured@,
            None => DEFAULT_SYNC_DB_URL@,
        }),
{
    match configured {
        Some(configured) => configured,
        None => DEFAULT_SYNC_DB_URL.to_owned(),
    }
}

/// The catalogue is where it is configured to be, and only where nothing is configured is
/// it at the default.
pub proof fn law_configured_url_is_used(configured: Option<String>, url: String)
    requires
        call_ensures(sync_db_url, (configured,), url),
    ensures
        match configured {
            Some(configured) => url@ == configured@,
            None => url@ == "sqlite://sync.db"@,
        },
{
}

/// What is created are the tables that the model speaks of, where they are missing.
pub proof fn law_schema_creates_the_tables_of_the_model()
    ensures
        SYNC_DB_SCHEMA@ == tables_text(),
{
}

} // verus!
