ALTER TABLE matrix_service.idempotency_records
    ADD COLUMN IF NOT EXISTS image_event_id TEXT;
